# vault

A password vault whose database is encrypted with a key derived from the
user's password (Argon2, then AES-256-GCM-SIV, stored as base64), whose entries
are made of fields that keep every value they have had, with field presets,
a password generator, and the rules behind its views.

- `src/` is the verified library (Verus): `encryption`, `db` (with the sample
  rows in `db::db`), `config`, `password_gen`, `lock`, `sortable`, `ui` and the
  small helpers in `text` and `im_vector`.
- `app/` is the program around it: where the files live, reading and writing
  them as TOML, the settings measured in floating point, and a terminal front.
- `tests/` runs the library on concrete values.
