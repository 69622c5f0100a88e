# sqlx-cloudflare

sqlx drivers for Cloudflare D1 and Durable Object SQL storage, with the logic
that decides what they do verified by Verus.

- `src/` is the verified library: the value model and the ±(2^53 − 1) rule
  JavaScript numbers impose (`number`, `value`), the Rust type mapping
  (`types`), rows and column lookup (`row`), bound parameters (`arguments`),
  the crossing to and from JavaScript values (`js`), database errors read
  from SQLite's message text (`error`, `text`), what a statement did
  (`query_result`), transactions -- refused `begin()`s and what a Durable
  Object callback transaction resolves to (`transaction`) -- and connections
  and their options (`connection`). The public functions state their results
  in their contracts, as far as those do not depend on the Worker's
  environment; the public proof functions state the laws that relate them.
- `tests/` runs the library on concrete values.
- `app/` is the sqlx side: the `Database`, `Row`, `Executor`, `Connection`
  and `TransactionManager` impls, the lookup of a D1 binding in the Worker's
  environment, and the calls into the Workers bindings, which hand what they
  read to the library.
