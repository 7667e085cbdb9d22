# cli_downloader

The logic of a parallel HTTP downloader, verified with Verus.

- `src/` — the verified library: cutting a file into byte ranges
  (`network::calculate_chunks` and its laws), reading response headers,
  decimal text in and out (`text`), file categories and history
  (`history`), the registry of running downloads and the decisions behind
  pause, resume and cancel: which token to cancel and which pause flag to
  set to which value (`state`, `commands`), and the lines the progress
  printer shows (`progress`).
- `app/` — the program around it: HTTP requests, file writes, JSON files,
  task spawning, cancelling tokens and sending on pause flags, and the
  command-line entry point.
- `tests/` — tests of the library on concrete values.
