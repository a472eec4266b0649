# helmor

Host-side logic of the Helmor desktop app, verified with Verus.

- `src/` is the verified library: open-file limit tuning (`limits`), Codex
  configuration lookup (`codex_config`), the UI-sync wire protocol
  (`ui_sync`), Windows shell helpers (`windows_shell`), the workspace script
  runner's decisions (`scripts`) and its process registry (`registry`), on
  top of shared text and path operations (`text`, `paths`).
- `app/` is the unverified host around it: environment and file-system
  access, sockets, child processes and PTYs.
- `tests/` runs the library on concrete inputs.
