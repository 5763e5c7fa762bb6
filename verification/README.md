# request_capture

A service that stores (almost) anything sent to it over HTTP, so that the traffic
can be inspected later: every request is answered `204 No Content` at once and
queued; a dispatcher writes queued requests to a database (SQLite or DuckDB), with
a bounded number of writes running at once.

The decisions the service makes are a Verus-verified library under `src/`:

- `decimal`: decimal number reading with the grammar of Rust's `FromStr` for
  unsigned integers and `i64`.
- `text`: header values read as text (visible ASCII and tab only).
- `config`: the settings (`PORT`, `MAX_BODY_BYTES`, `MAX_CONCURRENT_WRITES`,
  `DB_ACQUIRE_TIMEOUT_SECS`) and their defaults.
- `body`: collection of a request body up to a limit, chunk by chunk, as a state
  machine driven by the reader of the body stream.
- `request`: what is kept of a request: method, path, query, content length,
  content type, user agent, client address, and the header rows.
- `write`: the plan of rows that store one request and the transaction protocol
  that stores them, as a state machine driven by the database code.
- `db`: the statements of both stores and the location of the DuckDB store.

`app/` holds the HTTP server, the body stream reader and the two database
backends, which perform the actions that the library asks for. `tests/` runs the
library on concrete values.
