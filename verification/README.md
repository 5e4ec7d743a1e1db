# zeshicast

The decisions of the Zeshicast launcher's GTK interface, written in Verus and
proved against their contracts.

- `src/` — the verified library: Markdown to Pango markup (with the proof that
  its tags are always properly nested and closed, `markup.rs`), the navigation history, key
  dispatch, selection in lists, the action panel and the root list, the
  preference parsers, clipboard filtering and framing, the texts of the status
  chips, dashboard cards and list rows, the network view's actions, script
  runs, the notification server's answers, the on-screen display timers and
  how the window is brought up.
- `tests/` — tests of the library on concrete values.
- `app/` — the GTK side: widgets, the clock, the clipboard watcher, files,
  processes and network access, all acting on the library's decisions.
