# ftp

Streams that arrive as files over FTP: RFC 959 in passive mode and binary
type, as a client and as one client's worth of server.

`src/` decides and holds no socket. A `Client`, an `Exchange` (a whole send or
receive), a `Session` and a `Listening` each say what to do next and are told
what came of it; their contracts state every step. `reply.rs` reads and writes
replies, `files.rs` keeps a session's directory, `text.rs` holds what both
need of text. `exchange.rs` proves that a file is deleted only once it was
retrieved, and that what was deleted is handed over however the exchange ends.
`wire.rs`, `loopback.rs` and `round.rs` put both sides together and prove what
then holds: what is stored is retrieved whole, what is sent arrives, what is
there is received.

`app/` holds the sockets and the transport as other transports are used.

`tests/` runs both sides against each other in memory.
