# client-rust

The client that runs on a smart loudspeaker. It connects to a server, or lets
peers connect to it, over WebSockets. Peers ask it to run scripts, to play sound
and to record; it tells them when the wake word is heard, when something is
played, and what the assistant logs.

`src/` is a library whose every function is verified by Verus. It decides; it does
no I/O. Where the program has to wait, read, write or start something, the library
says what to do next as a value, and is told what came of it as another.

| module | what it decides |
|---|---|
| `config` | what the command line means |
| `text`, `base` | texts, and what is logged |
| `protocol` | messages as JSON trees, commands by name, routing |
| `transport` | queues, frames, the handshake, reading and writing a WebSocket |
| `audio` | formats, the processes that play and record, cutting a recording into blocks |
| `shell` | results of scripts, the device's code, the setup of its sound system |
| `monitor` | following log files, the wake word log, the state of the player |
| `app` | peers, commands, sessions, supervision, how peers come in |

Public proof functions whose names begin with `law_` state what holds across
functions.

`app/` is the program around the library: threads, tasks, sockets, processes,
files, and JSON as text. `tests/` runs the library on concrete values.
