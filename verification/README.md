# Terminal Quest

A focus game for the terminal. A task becomes a boss; every second with keys
down is a focus pulse that wears it down; a distracting program (from the
blacklist) hurts the hero after a grace period; 1500 pulses in a row earn a
five-minute mandatory break; beaten bosses pay experience, gold and an elixir.

- `src/` is the verified library: the game's state and its steps (`app`),
  the data (`models`), the Markdown quest board (`parser`), what the watcher
  reports (`watcher`), the webhook message (`webhook`), the screen's texts
  (`ui`), text helpers (`text`) and the properties proved over the steps
  (`laws`). Hit points, item power and damage are counted in tenths.
- `app/` is the program around it: command line, terminal drawing, the
  watcher thread, sound, notifications, the webhook post, and the
  settings and save files.
- `tests/` runs the library on concrete games, checklists and screens.
