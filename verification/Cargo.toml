[package]
name = "reflectodoro"
version = "0.1.0"
edition = "2021"
publish = false

[dependencies]
chrono = { version = "0.4", default-features = false, features = ["clock", "std"] }
rand = "0.8"
base64 = "0.22"
argon2 = "0.5"
chacha20poly1305 = "0.10"
zeroize = "1"
serde = { version = "1", features = ["derive"] }
serde_json = "1"
spake2 = "0.4"
snow = "0.9"
sqlx = { version = "0.8", default-features = false, features = ["sqlite", "runtime-tokio", "macros"] }
tokio = { version = "1", features = ["rt", "macros", "time", "net", "io-util", "sync"] }
