# Pasteport

Local-first clipboard history: what you copy is kept, can be searched, and can be
put back on the clipboard.

- `src/` is the engine, verified with Verus: clips, the history with its
  retention policy, search, pinboards, the request dispatcher, the rules of the
  control socket, the clipboard helpers' protocols, license keys and the trial
  clock.
- `src/trusted.rs` holds the calls into other crates together with what is
  believed of them. Everything else is proved.
- `src/model.rs` is the mathematical model that the contracts of the history speak
  of. `src/laws.rs` and `src/clip_laws.rs` state what holds across operations.
- `tests/` runs the engine.
- `app/` is the ordinary Rust around it: the daemon, the command-line client, the
  signing tool, the C ABI, the window, and the files on disk.

The window needs GTK4 and is built with `--cfg pasteport_gtk`.
