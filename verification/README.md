# grorm

An object-relational mapper with verified internals: SQL builders, a value
model with conversions, a query builder with transactions, a connection pool,
an in-memory storage engine for the embedded backend, and the client side of
the PostgreSQL and MySQL wire protocols.

- `src/` is the library, written and proved with Verus. Each public function
  states its result in `ensures`; the laws of the library (round trips of
  values, what a rollback restores, what a stored row reads back as, what a
  framed message announces, reading an answer in pieces) are public proof
  functions in `types/laws.rs`, `protocol/tx_laws.rs`,
  `protocol/table_laws.rs`, `protocol/engine_laws.rs`,
  `protocol/wire_laws.rs` and `protocol/stream_laws.rs`; those on how the
  statement builders keep one placeholder per parameter are in
  `query/insert.rs` and `query/select.rs`, the one on ending an
  unfinished transaction is in `orm/transaction.rs`, the one on a pool's
  whole life in `pool.rs`, and the one on walking a row in `driver/mod.rs`.
- Identifiers that reach the SQL text through `where_in`, `order` and the
  joins are checked (`orm/injection.rs`); a refused one is kept in the chain
  and the next statement run from it gives `Error::SqlInjection` without
  reaching the driver; every statement is also checked for injection
  patterns before it is handed to the driver.
- `app/` holds what talks to the operating system: sockets (driven by the
  protocol steps of `src/protocol/pg.rs` and `src/protocol/myproto.rs`), the
  PostgreSQL driver, files of the embedded database, a pool shared under a
  lock, serde forms, and `Drop` guards that give connections back and roll
  unfinished transactions back.
- `tests/` exercises the library on concrete values.
