# arangors

A client library for one database of an ArangoDB server, verified with Verus.

- `src/` is the verified library: the database handle and the requests of
  each operation (`database`), the resolution of endpoint paths (`urls`), the
  server's replies and what they mean (`response`), AQL queries and their
  bound variables (`aql`), and the gathering of query results across batches
  (`cursor`).
- `app/` sends the requests over HTTP with `reqwest`, reads the replies with
  `serde`, and reports errors with `failure`.
- `tests/` exercise the library on concrete values.
