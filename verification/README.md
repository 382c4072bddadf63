# silos

Silos turns websites into standalone desktop app windows. Each app has
subspaces that either share a session (same login) or keep their own, and
apps can be locked with a PIN and kept in the tray.

This crate is the verified core of that program, written in Verus:

- `src/` — the library. Configuration edits, data-folder slugs and session
  folders, the tab registry and which webviews are shown, open/lock/unlock
  and hibernate plans, site resolution, icon decisions, launcher file
  contents and window labels. Every function carries a contract that Verus
  proves; calls into `std::path`, `url`, `regex`, `uuid`, `argon2`,
  `base64` and `image` go through small trusted wrappers whose contracts
  state what those crates document.
- `tests/` — tests run against the compiled library.
- `app/` — the desktop shell around the library (Tauri windows, file and
  network I/O, pixel work on floats, OS launchers and notifications). It
  calls the library for every decision and is not verified.
