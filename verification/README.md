# commitchi

A terminal time machine for Git history with a small pixel pet whose mood
follows how recently and how steadily you commit.

- `src/` is the verified library: the pet's mood model and activity log, the
  structured diff and its limits, commit paging, the managed post-commit hook
  text, timeline navigation and jumping, key bindings, the event schedule,
  the screen's text and the sprite art. Every function carries a contract
  that Verus proves, save one: `text::push_char`, a thin wrapper around std's
  `String::push`, whose contract (the character is appended) is trusted. The
  `lemma_*` proof functions state properties that hold across calls (mood
  decay, hook idempotence, playback order, diff caps).
- `app/` is the program around it: Git access through git2, the terminal
  through crossterm and ratatui, settings from TOML, pet state as JSON,
  file watching, and the floating-point animation speeds.
- `tests/` runs the library on concrete values.
