# fedit

The verified core of a small tabbed text editor, written in Verus.

- `src/model.rs` — the mathematical model of the editor state (`AppModel`),
  its invariant, and what each operation does to it.
- `src/state.rs` — `AppState` and `Tab`, the executable state and its
  operations, each proved against the model.
- `src/recent.rs` — the recently used files list: path comparison and the
  move-to-front rule with its laws.
- `src/search.rs` — find and replace over a buffer, built on the `regex`
  crate.
- `src/text.rs`, `src/error.rs` — the fixed texts and the error type.
- `src/laws.rs` — properties that relate several operations.
- `app/` — the Tauri shell: commands, file I/O, persistence, menu and the
  window-close hook.
