# reflectodoro

The decision-making core of Reflectodoro, a Pomodoro app that ends every
break with a short written reflection behind a hard-to-dismiss overlay,
written in Verus: each function carries a `requires`/`ensures` contract and
Verus proves the code meets it.

## Layout

- `src/` — the verified library.
  - `grid` — the wall-clock work/break grid in both schedules, local-time
    resolution, slot arithmetic on RFC 3339 strings, upcoming break starts.
  - `scheduler` — one iteration of the break loop: what to act on, how long
    to sleep, snoozes.
  - `state`, `commands` — the overlay's unlock state machine and the
    command-level gates around it.
  - `merge`, `import` — the line merge of reflections and day lists, and the
    per-slot decisions of a data import.
  - `keystore` — which at-rest key a launch uses, the command gates, and the
    password-wrapped key file (Argon2id + XChaCha20-Poly1305).
  - `screen_time` — focus-session tracking and its flush queue.
  - `slots` — splitting a reflection across slots and the walk over missed
    slots.
  - `p2p` — pairing windows, hex encoding, candidate lists, the rev
    cursor of a sync's deltas, sync results.
  - `pairing` — the SPAKE2 exchange and the Noise handshake that pairs two
    devices and opens every sync session.
  - `ios` — the notification and Live Activity plan.
  - `schema` — the check that a database has the current shape.
  - `media`, `hook`, `breakit`, `paths`, `report`, `text` — the smaller
    pieces: media-pause guards, the key guard, challenges, file-extension
    checks and log listing, the system report, string helpers.
- `tests/` — tests run against the compiled library.
- `app/` — the runtime shell: the scheduler's sleep loop, the SQLite work of
  the import, the sync and the schema check, key resolution and the key
  file on disk, the pairing and sync connections, the file commands, and
  the JSON shapes exchanged with the frontend.

Calls into outside crates (chrono, base64, argon2, chacha20poly1305,
zeroize, rand, spake2, snow, and a few std functions) go through small
trusted wrappers,
each documented with what its contract claims.
