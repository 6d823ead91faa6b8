# workspace

The state of an editor window and what happens to it, verified with Verus: tabs, pins and previews,
auto-save, hot exit, navigation, inline edits, differences, dropped files, the git panel, the inbox,
the keymap, the history of threads, and the fleet of tasks.

- `src/` is the library. A `Workspace` holds plain values; its view is a `Model`, and every operation
  says in its contract which model comes after which. What must happen outside of the window is put
  into `effects`, in order, and taken out with `take_effects`. What came of it is handed back to
  functions such as `git_commit_done` or `history_searched`.
- `tests/` holds the tests.
- `app/` is ordinary Rust around the library: files, processes, git jobs, what the history is read
  from, waiting, keeping the computer awake, and the geometry of the lineage graph.

Paths are texts with `/` between their components. Lengths are in thousandths of a pixel.
