# dsh_shell

The supervision logic of a desktop shell that serves `dsh web` locally: it
picks a loopback port, launches the server (through a global `node` entry
script or `npx`), waits until the port answers HTTP, reports a status to the
webview, and on exit kills the process tree and whoever still listens on the
port.

- `src/` is the library, verified with Verus: `text` (decimal numbers,
  unsigned-integer parsing, Unicode whitespace, trimming, word splitting),
  `dsh` (server URL and port, launch command), `ports` (readiness probe and
  port choice), `supervisor` (start-once, launch outcome, waiting, status),
  `cleanup` (listener query, pid parsing, `taskkill`, job handle) and
  `workdir` (working directory choice).
- `app/` is the Tauri program around it: sockets, processes, threads, the
  environment, the file system and the Windows job-object calls.
- `tests/` runs the library on concrete values, partly against the standard
  library's own parsing and trimming.
