# envibe

A multi-project development environment manager: it discovers projects and
their services (Docker containers, Docker Compose services, local processes
and AI agents), assigns them ports, starts and stops them, and shows their
logs, either in a terminal interface or through an HTTP/WebSocket API for a
desktop frontend.

The library in `src/` is verified with Verus: every public function states
what it returns or changes, and `src/laws.rs` proves properties that span
functions (exclusive port assignments, what an allocation reads back as,
panel cycling, bounded console history, and more).

## Layout

| Path | What it holds |
|---|---|
| `src/text.rs`, `src/namemap.rs` | character-level string helpers; an insertion-ordered name map |
| `src/config.rs`, `src/yaml.rs`, `src/detect.rs` | project and service configuration; reading compose files |
| `src/ports.rs` | the port registry: allocation, pinning, release |
| `src/process.rs` | env files, `${...}` interpolation, process records and launch plans |
| `src/docker.rs` | container names, specs, reuse decisions, container listings, log lines |
| `src/state.rs`, `src/scan.rs` | recorded service states; project discovery and reconciliation |
| `src/server.rs`, `src/ws.rs` | the API's views, lookups, stop plans and terminal socket actions |
| `src/agent.rs`, `src/terminal.rs`, `src/worktree.rs` | agents, terminal sessions, git snapshots |
| `src/tui.rs`, `src/display.rs` | the terminal interface's model, keys and texts |
| `src/laws.rs` | properties across functions |
| `app/` | the program: command line, files, Docker, processes, PTYs, HTTP server, drawing |
| `tests/` | tests of the library on concrete values |

The program runs the terminal interface by default; `envibe server --port 3847`
serves the API.
