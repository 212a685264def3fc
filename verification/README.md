# screenforme

The verified core of a screenshot tool for macOS and Linux, written in
Verus: every function under `src/` carries a contract that Verus proves.

- `src/capture/` — capture tool arguments and outcomes, scrolling capture
  (frame normalization, offset detection between frames, stitching, and the
  decisions of the auto-scroll loop), screen-recording bookkeeping.
- `src/history.rs` — capture file names, the newest-first history listing,
  and pruning to 50 captures and 10 videos.
- `src/settings.rs`, `src/shortcuts.rs` — settings sanitizing, global
  shortcut validation, duplicate checks and rebinding with rollback.
- `src/i18n.rs`, `src/text.rs` — language resolution, catalog lookup with
  fallback and placeholder interpolation, and the string helpers.
- `src/onboarding.rs`, `src/tray.rs`, `src/windows.rs`, `src/commands.rs` —
  the macOS screenshot-shortcut export reader, the tray menu, update-check
  reactions, relaunching, and the command decisions.
- `tests/` — the test suite, run against the compiled library.
- `app/` — the unverified shell: files on disk, the `screencapture` tool,
  image decoding, global hotkeys, serializable copies of the library's
  types, and the floating-point screen geometry.
