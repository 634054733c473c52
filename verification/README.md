# surrealdb_rpc_async

A websocket RPC client for SurrealDB whose protocol logic is formally verified.

- `src/` is the verified library: the framing of requests as JSON text
  (`request`), request identifiers (`ids`), what each client operation sends
  (`client`), the routing of responses to the requests waiting for them
  (`dispatch`, with the laws over whole runs of events in `routing`), what a response resolves to (`response`), the builder and the
  setup requests of a new connection (`builder`), and the idle queue of the
  connection pool (`pool`).
- `app/` runs the socket, the channels and the background task on tokio, and
  holds the serde and thiserror forms of the response and error types.
- `tests/` exercises the library on concrete values.

The routing task keeps its two maps from request identifiers as lists of
entries in which no identifier occurs twice (`table`). A `BTreeMap` keyed by
`String` was tried first: its specification in vstd holds only for key types
whose ordering is modelled, which `String` is not, so not even the length of
a map after one `insert` could be proved.
