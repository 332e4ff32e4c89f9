# dictaphile

A Windows tray dictation tool: a global hotkey starts and stops recording, the
recording goes to a local Whisper server, the transcript to a local LLM for
clean-up, and the result is typed where the cursor is.

`src/` is the verified library:

- `config` — the configuration record, the built-in distillation modes, the
  completion of the mode list on load, and the edits written back to the file;
- `hotkey` — the hotkey grammar (`Ctrl+Alt+R`, `F9`, …) and the rewrite of the
  `hotkey` line of the configuration text;
- `audio` — the minimum-length guard, WAV framing (through `hound`), and the
  transcribe / distil / paste pipeline as a state machine;
- `settings_dialog` — DPI scaling, control layout, message decoding and the
  dialog's editing state (hotkey, distillation mode, custom prompts and the LLM
  endpoint);
- `session`, `tray`, `tray_balloon` — the event loop's decisions, the tray icon's
  pixels and colours, and UTF-16 text for the Windows shell;
- `text` — character-level helpers with the semantics of Rust's `str` methods.

`app/` holds the Windows program: microphone capture, HTTP calls, keyboard
input, the tray icon, the Win32 dialogs and the event loop.
