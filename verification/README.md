# waytime

A minimal screen time tracker for KDE Wayland sessions: a daemon records how
long each focused window stays in front, pausing while the screen is locked or
the machine sleeps, and `waytime today` prints the time per application since
local midnight.

- `src/` is the verified library (Verus):
  - `tracker.rs`: the daemon's bookkeeping as a state machine. Each operation
    (window event, pause, resume, heartbeat, flush) updates the state and
    answers with the database write it calls for; laws about the writes are
    proved at the end of the file.
  - `afk.rs`: presence signals and the filter that forwards only changes.
  - `cli.rs`: command selection, duration text, start of the local day, and
    the report total.
  - `decimal.rs`: decimal text of integers.
  - `watcher.rs`, `db.rs`: the values handed over by the window watcher and
    the database.
  - `clock.rs`: the system clock through chrono, and the shape of a
    local clock reading (taken in `app/`, since the local time zone comes
    from the environment and the zone files).
- `app/` is the program around it: D-Bus watchers (zbus), SQLite storage
  (rusqlite), the local time zone (chrono), the report table (comfy-table),
  argument parsing (clap) and the event loop (tokio).
- `tests/` exercises the library on concrete values.
