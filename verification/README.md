# desktop_gpui

The verified core of the rqbit desktop client, written in Verus.

- `src/` is the library. Every function there carries a contract that Verus
  proves: byte and uptime formatting, stable table sorting, the torrent list
  (search and status filter, sorting that survives refreshes, multi-row
  selection), the file-selection table, the add/delete/magnet dialogs, the
  hold-to-quit gesture, the main window's and the detail panel's decisions,
  the settings page's text rules, the HTTP API addresses and the IPC
  endpoint's request reading, authentication, routing and replies.
- Calls into `hex`, `ring`, `url`, `serde_json` and `toml` sit behind small trusted wrappers whose
  contracts are stated next to them.
- `tests/` exercises the library on concrete values.
- `app/` is the GPUI program around the library: windows, widgets, the
  torrent session, file and socket I/O, and the floating-point texts of
  progress and speeds.
