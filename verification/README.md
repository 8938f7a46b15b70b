# Fubun

Fubun is a local automation core. A daemon records what a user does in a browser and an editor,
where the user asked it to; it finds the beginnings that working sessions share, suggests them as
rituals, and runs the rituals that the user approved. Nothing leaves the machine.

`src/` is the library: every rule of the system, stated in contracts and proved with Verus. It
reads no clock, no file and no socket.

| Module | What it decides |
| --- | --- |
| `event`, `resource`, `ritual`, `execution` | the records and when they are valid |
| `policy` | the fixed registry of actions |
| `protocol`, `server` | frames, envelopes, handshakes and reports |
| `adapter` | which adapters may register and which one runs an action |
| `preview`, `lifecycle`, `runner` | preview, approval, activation and the steps of a run |
| `intake` | which events are recorded |
| `mining` | sessions, evidence and suggestions |
| `storage` | tables, rows, migrations and what an operation on the database writes |
| `url`, `paths`, `cli`, `linux`, `native_host` | addresses, paths, the command line and the adapters |
| `text`, `order`, `clock`, `digest`, `ids`, `json` | what the others are built from |

`app/` is the program around it: the daemon, the command line, the Linux adapter, the native
messaging host and the database. `fubun dev schemas` writes the JSON schemas of the messages.
`tests/` runs the library on concrete values.

The library calls a few functions of `serde_json`, `sha2`, `time` and `uuid`. Each call stands in a
small function whose contract says what is taken for granted; they are in `json`, `digest`, `clock`
and `ids`.
