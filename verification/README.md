# velo

Velo is a small GTK4/WebKitGTK web browser with a local history and
bookmarks service. This crate holds its logic as a Verus-verified library
and the program around it.

- `src/` — the verified library (`velo`):
  - `navigation` — what the address bar loads (`normalize_url`), the blank
    page, tab titles, what a new tab opens, the reload button, bookmark
    requests, and the origin of a parsed address.
  - `credentials`, `credential_order` — the saved-login index: lookup by
    origin, saving and removing a login, keyring service names, the host
    label, and the stable sort of the saved-logins list.
  - `downloads` — download names (file name, stem, extension, numbered
    alternatives), size units, and the state of a download row.
  - `shortcuts` — the window's keyboard shortcuts as a table from key press
    to action.
  - `sidebar`, `tabs`, `find`, `panels` — the applet sidebar, tab cycling,
    the find bar and the history/bookmark rows.
  - `paths`, `service`, `records`, `text` — data directory, service
    addresses, the records exchanged with the service, and text helpers.
- `tests/` — tests of the library on concrete values.
- `app/` — the program: GTK widgets, WebKit, the keyring, the HTTP client,
  JSON files, and the history service (`velo-backend`, run when the program
  is invoked under that name).
