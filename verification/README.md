# Ruggine

A chat in groups that are joined by invite: a WebSocket server that keeps its users, groups and
invites in SQLite, a small HTTP API, and a desktop client.

* `src/` is the library, verified with Verus. It holds everything the server and the client decide.
  A message of a client is dealt with by an exchange (`exchange.rs`) that asks for one thing at a
  time (a lookup, an insert, a message to someone) and goes on with the answer. `rules.rs` says how
  it goes on, `world.rs` what its requests mean for the tables and the connected users, and
  `laws.rs` and `responses.rs` what follows: that groups are by invite only, that only members
  invite, that transactions are all or nothing, and what comes of each message. `session.rs` says
  what comes of all that arrives over a connection, `connection.rs` what goes out over it, and
  `link.rs` what of that reaches the client's window.
* `app/` is the rest: sockets, SQLite, JSON, the HTTP server and the window. Started with `client`
  it is the client, otherwise the server.
* `tests/` runs the library, the exchanges on a real SQLite database in memory.
