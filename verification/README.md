# superbank

Reads Solana's ledger history out of ClickHouse, and moves old parts of it into Parquet archives.

`src/` is the library: what is asked of the database, where it is asked, what follows each reply,
and what is made of the rows. Every function of it is verified with Verus against its contract. It
does no I/O of its own. Where a decision follows a reply, the library is a function from a state
and a reply to the next state.

- `solparq` plans the archives of a table, names them and drives a run; it also writes the page
  that shows them.
- `solparq_read` reads filters and slot ranges, and scans the rows of an archive.
- `clickhouse` holds the queries, the shards and their routes, the cache of signature slots, the
  startup checks, the rewards of epochs, and the watch over reads that were given up.
- `hashing`, `text`, `time`, `lists` and `text_search` are what these share. The calls into other
  crates stand in `hashing`, `clickhouse::urls`, `solparq::dashboard`, `text` and `time`, each with
  the contract that is relied on.

Functions whose names start with `law_` state what holds of several functions together.

`app/` is the program around the library: arguments, connections, files, and the servers. `tests/`
runs the library on concrete values.
