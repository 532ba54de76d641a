# tokimo-bus

A multi-process message bus: apps run as separate processes, register
methods with an embedded broker over a Unix socket (or a Windows Named
Pipe), call each other through it, and publish events; a supervisor starts
them, hands each a single-use spawn token, and respawns resident apps with
exponential backoff.

## Layout

- `src/` — the verified library (Verus). Every decision of the bus lives
  here with its contract:
  - `frame` — wire values and error messages;
  - `codec` — length-prefixed framing, with the round-trip law;
  - `registry`, `broker`, `session`, `catalog` — registrations and their
    generations, spawn tokens, call routing, authorisation, subscriptions and
    fan-out, the handshake, and what each frame of a session asks for;
  - `client` — configuration, endpoints, the builder, the handshake reply,
    inbound-frame handling and dispatch to handlers;
  - `transport` — pipe names, connect retry policy, app-server sockets;
  - `supervisor` — app definitions, spawn plans and the respawn backoff;
  - `auth`, `cli` — forwarded-user extraction, credentials, API URLs,
    API-key checks, and the unified help page;
  - `text`, `std_extra`, `shared_map` — string helpers and contracts for the
    few std and `dashmap` items the library uses.
- `app/` — the I/O around it: MessagePack serialisation, sockets and pipes,
  the async broker, client and supervisor runtimes, axum, reqwest, sea-orm,
  clap and TOML glue.
- `tests/` — tests of the library.
