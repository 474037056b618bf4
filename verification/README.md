# breadd

The core of a desktop automation daemon, written in Rust and verified with
Verus.

The daemon listens to the compositor, the hardware and the system, turns what
they report into events with stable names, keeps a model of the desktop, and
hands the events to Lua modules, to rules in a file, and to programs that ask
over a socket.

## Layout

- `src/` is the library: everything that is decided or computed, with contracts
  that say what comes out of each function, and laws that hold across them.
- `tests/` run the library on given values.
- `app/` is the daemon around it: sockets, the bus, files, processes and the Lua
  engine. It hands plain values to the library and does what the library
  answers.

## Where to find what

| Part | Modules |
| --- | --- |
| Reports of the adapters | `adapters` |
| From reports to events | `normalizer`, `recency`, `apps`, `events` |
| The model of the desktop | `types`, `state_engine`, `engine`, `snapshot` |
| Who is told of what | `glob`, `subscriptions`, `ring` |
| Modules and the Lua engine | `modules`, `builtin`, `loading`, `lua_runtime`, `store`, `widgets`, `workflows` |
| Modules in processes of their own | `module_host`, `bridge` |
| The socket | `ipc` |
| Settings and rules | `config`, `settings`, `rules`, `machine`, `notify`, `control` |
| Check of the documentation | `surface`, `drift` |
| Values and texts | `json`, `wire`, `text`, `paths`, `ordered`, `table` |

## What is taken on trust

The library calls `serde_json`, `toml` and `uuid` through small functions whose
contracts are stated, not proved; they stand in `wire`, `module_host` and
`text`, each with a comment that says what is claimed.
