# keypulse

The counting core of KeyPulse, a keyboard activity dashboard, written in
Verus. It counts key presses by category, keeps per-minute, hourly and
half-hourly activity, labels shortcuts such as `Cmd+C`, keeps past days,
and ranks the most used shortcuts and categories for the dashboard, without
storing typed text.

- `src/` is the verified library: each public function carries a contract,
  except `now_ms`, whose result is the time of the call and nothing more,
  and `src/laws.rs` holds the properties that span functions.
- `tests/` runs the library on concrete values.
- `app/` is the desktop shell (Tauri window and tray, the global keyboard
  listener, JSON files on disk) that drives the library.
