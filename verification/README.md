# PgMux

The verified core of PgMux, a connection multiplexer for Postgres: the backend side of the wire
protocol, the metrics of the service and the TLS identity of its listener. It is written in Rust and
proved with [Verus](https://github.com/verus-lang/verus).

- `src/` is the library. It performs no I/O.
  - `protocol::messages` frames messages and builds the startup and query messages.
  - `protocol::connect` opens a connection: it is told what was read and says what to do next.
    `protocol::handshake` proves what holds of every opening, and `protocol::reads` what holds however
    the server's bytes are cut into reads.
  - `protocol::session` resets and checks an open connection.
  - `protocol::error` reads the server's error messages and words the failures of a connection.
  - `protocol::buffer` and `protocol::auth` state what the `bytes` and `postgres-protocol` crates do.
  - `admin::metrics` creates and registers the metrics; `admin::ids` works out the numbers by which
    the registry tells them apart.
  - `tls` makes the acceptor for client connections from PEM data.
  - `words` says what it means that an outside error has certain words.
- `app/` is ordinary Rust around it: sockets, files and logging.
- `tests/` runs the library.

What is believed without proof of the outside crates stands in the contracts of the functions marked
`external_body` and in the `assume_specification` items, each with a comment that names the outside
function.
