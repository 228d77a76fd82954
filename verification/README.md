# macrotool

A game macro and automation tool for Linux/Wayland: hotkey-triggered key
sequences, pixel triggers, buff timers and an overlay, with profiles per
game, class and spec stored as KDL.

## Layout

- `src/` — the library, verified with Verus: the profile tree and its KDL
  reading and writing (with a proved round trip), hotkey state machines and
  the suppression rule, buff scheduling, pixel checks, process and device
  decisions made from `/proc` snapshots, compositor JSON, and the editing
  operations the window performs. Calls into `kdl`, `serde_json` and `image`
  go through a few trusted wrappers whose contracts are documented where they
  stand.
- `tests/` — tests of the library, run against the real outside crates.
- `app/` — the program around the library: devices and uinput, the
  compositor, screen capture, files, threads, and the GTK window and tray.
