# Gnome MCP Bridge

A desktop window for a running `gfb serve --transport http`. It shows live `/healthz`, asked for
every 5 seconds, lists and calls the server's tools, shows `~/.gfb/audit.log` newest first, read
every 3 seconds, and lists the pending approvals in `~/.gfb/pending`, which can be granted from the
window.

- `src/` is the library: what the window decides and computes, written in Rust and proved with
  Verus against the contracts that stand with the functions.
- `app/` is the program: widgets, the worker thread, HTTP, the `gfb` program, and files, whose
  records it decodes with `serde`.
- `tests/` runs the library on concrete values.

What is taken on trust is small and marked: `serde_json` reads and prints JSON, `chrono` prints
dates and times, and a few functions of the standard library are given contracts of their own.
