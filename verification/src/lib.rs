//! Verified core of PgMux, a connection multiplexer for Postgres: the backend side of the
//! wire protocol, the metrics of the service and the TLS identity of its listener.
//!
//! Nothing here performs I/O. The protocol code is told what was read from the server and
//! answers with what to do next; reading and writing sockets and files is left to the caller.

pub mod admin;
pub mod protocol;
pub mod tls;
pub mod words;
