# Byte

Byte is a local coding agent: a daemon that hosts sessions, runs conversations with a model
provider and publishes what happens over JSON-RPC, and a desktop client that connects to it.

- `src/` is the library, written in Verus. It holds every decision: the session tree and its
  views, the model context and its compaction, the steps of a run, skills, provider responses
  and configuration, JSON-RPC framing and routing, and the client side of a connection. The
  contracts state what each function returns; the `law_` functions state what holds across
  calls.
- `app/` is the daemon around it: files, the environment, the clock, sockets, the provider
  client and the JSON forms of the library's types.
- `tests/` runs the library on concrete values.

A run, a compaction, and a request that activates a skill are state machines. The library
says what is to be done next (`RunAction`, `CompactAction`, `SendAction`); the daemon does it
and hands back what came of it (`RunInput`, `CompactInput`, `SendInput`).

JSON values that the library only passes on, such as tool arguments, are compact JSON text.
Paths are text with `/` between their components. A time is a number of seconds and
milliseconds since the epoch.

    byte-daemon --rpc-websocket 127.0.0.1:8787
