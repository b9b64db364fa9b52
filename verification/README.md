# wayland-vdagent

A SPICE guest agent for Wayland sessions, with its decisions verified in Verus.

The agent connects the `spice-vdagentd` daemon with a Wayland compositor. It
shares the clipboard both ways, receives files that are dropped on the guest,
passes monitor sizes on to Hyprland and Sway, and reports the size of the
output. Host text is served lazily: it is fetched when an application pastes,
not when the host announces it.

## Layout

`src/` is the library. It holds no sockets, files or Wayland objects: it takes
messages, events and outcomes, and returns what to do next.

| module | subject |
| --- | --- |
| `wire` | little-endian integers |
| `udscs` | the daemon protocol and its framing |
| `text` | splitting, trimming and numbers in text |
| `keyfile` | the description of a file to transfer |
| `path` | file names, joining, alternatives to taken names |
| `save_dir` | where transferred files land |
| `file_xfer` | file transfers, step by step |
| `monitors` | monitor requests and compositor commands |
| `data_control` | the two data control protocols, and which one to use |
| `agent` | the agent's state and its reactions |

Each function's contract equates what it returns, and what it changes, with an
open specification function over plain values. The proof functions whose names
begin with `law_` state what holds across functions: what is written can be
read back, transferred files stay in the save directory, a transfer succeeds
exactly when all its bytes have come, no message of the daemon makes the agent
ask for clipboard data, no Wayland object is lost or used after its end.

`app/` is the process around the library: the event loop, the sockets, the
files, the commands and the Wayland objects. `tests/` runs the library.

Two functions of the standard library are trusted, both in `text`:
`std::str::from_utf8` and `String::push`.
