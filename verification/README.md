# server_tuic

The relay logic of a TUIC server, verified with Verus: what becomes of a client's
request for a stream, of a client's datagrams, and of the datagrams that come back.

- `src/` is the library. Each step of the relay is a function from what is known and
  what just happened to what is known next and what to do.
  - `addr`, `literal`, `roundtrip`: addresses, their text, and that what is written is
    read back.
  - `target`, `outbound`: where a client wants to go, and how it is reached.
  - `connection`: settings, user and sessions of a client's connection.
  - `tcp`, `udp`, `udp_laws`: the course of a stream and of a datagram, and what holds
    of it whatever happens.
  - `send`, `session`, `packet`, `error`: the sockets of an association.
- `app/` performs the steps: sockets, streams, tasks and logging.
- `tests/` runs the library on concrete values.
