# ironboy

The frontend logic of the IronBoy Game Boy emulator, verified with Verus.

- `src/text.rs` — suffix tests and deletion of every occurrence of a pattern
  in a string, with the facts about deletion that the save-file laws use.
- `src/save_file.rs` — save formats and their extensions, the path a save
  is written to, the scratch file, the name of a file opened in the browser,
  and which loader a file goes to; laws: a save is opened again in its own
  format, and re-saving a loaded save writes to the same file.
- `src/frame.rs` — the frame's cycle budget, the check on each CPU step, and
  frame pacing against a fixed schedule.
- `src/keys.rs` — the keys bound to the Game Boy's buttons and the selection
  of those held down.
- `src/session.rs` — the decisions taken on each window event (pause, fast
  mode, mute, audio, saving, leaving, resizing, running a frame), as a step
  from state and event to next state and actions; laws on the keys, frames,
  leaving and muted audio.
- `app/main.rs` — the window, input, audio, file and browser glue that
  performs those actions; it builds against the emulator core modules
  (`gameboy`, `mmu`, `cartridge`, ...).
