# herdr-plugin-renamer

A Herdr plugin that publishes a stable, human-readable `$task` title for agent
sessions, with its decisions verified by Verus.

- `src/` is the verified library: title cleanup and the fallback title (`slug`),
  state-file keys (`keys`), the state files and what is decided from them (`state`),
  the status-event filter (`context`), what is read from and sent to Herdr (`herdr`),
  the Codex request and answer (`codex`), and the naming phase as a state machine
  (`cold`).
- `app/` is the binary: environment, processes, files and the clock. It performs the
  actions the library decides on.
- `tests/` runs the library on concrete inputs.
