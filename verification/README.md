# xime

The logic of the XIME input method daemon for Linux, written in Verus.

- `src/` is the verified library. Its functions state what they return or change,
  as far as that does not rest on the clock, and the proof functions whose names begin with `law_` state what holds
  of the library as a whole: what the clipboard store keeps and drops, that a
  click hits what is drawn, that a pushed text does not come back, and so on.
- `tests/` runs the library. `tests/store_sql.rs` runs the store and SQL
  statements side by side and compares the rows.
- `app/` is the daemon around the library: SQLite, Wayland, the session bus,
  logging and drawing.

What the proofs rest on besides Verus: the SHA-256 of the `sha2` crate
(`src/sync.rs`), UTF-8 decoding in the standard library (`src/watcher.rs`) and
the system clock (`src/clock.rs`).

Drawing works on fractions of pixels, so anti-aliasing, blending and font metrics
are in `app/`. The library lays the panel out in cells and whole pixels.
