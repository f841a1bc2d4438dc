//! Verified core of the Reflectodoro break scheduler.
pub mod merge;
pub mod text;
pub mod grid;
pub mod state;
pub mod scheduler;
pub mod import;
pub mod keystore;
pub mod screen_time;
pub mod slots;
pub mod media;
pub mod paths;
pub mod breakit;
pub mod hook;
pub mod p2p;
pub mod pairing;
pub mod schema;
pub mod ios;
pub mod commands;
pub mod report;
