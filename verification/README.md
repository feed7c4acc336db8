# PostgreSQL-Trino gateway

A PostgreSQL wire-protocol gateway in front of Trino. PostgreSQL clients connect
to it as if it were a PostgreSQL server; queries are answered locally or
rewritten and run on Trino.

The decisions of the gateway are a library, written in Verus: the functions in
`src/` state what they return, and this is proved, save for the calls into other
crates that are listed below. The program around it, which owns sockets, tasks
and HTTP, is ordinary Rust.

## Layout

- `src/` is the library.
  - `query_pipeline`, `query_simple`, `query_extended`: what happens to a query,
    statement by statement, and which replies are kept between a description and
    an execution.
  - `query_inspection`, `intercept`, `info_schema`, `catalog`: which queries are
    answered locally, and with what.
  - `sql`, `rewrite`: what the SQL parser reports, and the changes that turn
    PostgreSQL's SQL into Trino's.
  - `trino_stream`, `types`, `datetime`, `float`, `json`, `wire`, `response`:
    from Trino's pages of JSON to rows on the wire, in text and in binary.
  - `error_mapping`: from Trino's errors to PostgreSQL's, without what a client
    should not see.
  - `startup`, `session`, `cancel`, `handler`: setting up connections, and
    finding the one to cancel.
  - `config`, `policy`, `tls`, `shutdown`: which configurations are accepted, the
    TLS material, and the end of the process.
  - `text`: characters and numbers.
- `tests/` runs the library.
- `app/` is the program.

## What is trusted

Calls into other crates stand behind small functions whose contracts are
believed: those of `sqlparser` in `sql`, of `chrono` and `chrono-tz` in
`datetime`, of `rust_decimal` in `types`, of `pgwire` in `wire`, of `dashmap` in
`session`, of `rustls-pemfile` in `tls`, of `trino-rust-client` and `rand` in
`startup`. Each says in its documentation what it claims of the call. What such a
call returns is often only given a name, and the contracts speak of that name; of a
random number nothing is stated.
