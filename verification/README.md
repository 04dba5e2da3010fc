# sdi_desktop

The logic of the SDI desktop shell, verified with Verus. The shell shows the dashboard of the
local daemon `sdid` in a window, mirrors the daemon's autonomy mode and its active
collaboration patterns into the window title and the tray, and offers the circuit breaker.

| Path | What it holds |
|---|---|
| `src/text.rs` | white space, words, lines, decimal numbers, the order of texts |
| `src/json.rs` | JSON documents, read through `serde_json` |
| `src/http.rs` | requests as they are written, responses as they are read |
| `src/daemon.rs` | which `sdid` binary is started, and whether one is |
| `src/daemon_url.rs` | the port file, the health check, the daemon's origin |
| `src/autonomy.rs` | the autonomy mode of a project, the circuit breaker |
| `src/patterns.rs` | the cache of pattern rows and its badge |
| `src/pattern_laws.rs` | what holds of that cache under every event |
| `src/events.rs` | the event stream, line by line, and what is due while it is down |
| `src/surface.rs` | the window title, the tray tooltip, the tray menu, the shortcut |
| `src/startup.rs` | the course of the start |
| `app/` | sockets, files, environment, timers, window and tray around the library |
| `tests/` | tests of the library |

Every function of `src/` has a contract that Verus proves, except the few marked as trusted:
they call `serde_json` or the standard library, and their doc comments say what is taken for
granted of those calls.
