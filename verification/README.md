# SimpleCrypt

A small encrypted password vault for the terminal. Records (a label and
ordered fields) are kept in one authenticated file: Argon2id derives the key
from the master password, XChaCha20-Poly1305 seals the whole vault, and the
80-byte header is authenticated as associated data.

## Layout

- `src/` — the library, verified with Verus:
  - `model.rs`: records, fields, templates, validation, password generation;
  - `crypto.rs`: the envelope header, key derivation, sealing and unlocking;
  - `editor.rs`: text inputs with byte cursors, and the record editor;
  - `app.rs`: the application as a state machine from events to effects;
  - `storage.rs`: the decisions of safe persistence (names, checks, errors);
  - `ui.rs`: escaping, display widths, windows and wrapping of shown text;
  - `text.rs`, `input.rs`, `theme.rs`, `error.rs`, `entropy.rs`: support.
- `app/` — the program: command line, terminal loop, drawing, file I/O, and
  the JSON form of records.
- `tests/` — tests of the library.

The application never performs outside work itself: `App::event` returns an
`Effect` (read the file, encode or decode records, write an envelope), and the
program answers it through `vault_read`, `payload_decoded`,
`payload_encoded` and `write_finished`.
