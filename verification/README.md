# rust_wal

Storage and routing for a Raft node whose log is to carry the write-ahead log of SQLite.

- `src/` is the library, verified with Verus: the log, the state machine, snapshots, the store that
  holds them, and the router between the nodes of a cluster in one process.
- `tests/` runs the library on concrete values.
- `app/` is the program around it: the library's store behind a lock as an `async_raft` storage, the
  router as an `async_raft` network, and a SQLite shell whose WAL callbacks are handed to Rust.
- `extras/wal_callbacks.c` registers those callbacks with SQLite.

## Running it

SQLite's shell has to be built with replication, and linked with `extras/wal_callbacks.c`:

```
./configure --enable-replication --disable-amalgamation
sudo make install
```

Then, in the shell:

```
sqlite> .open test.db
sqlite> pragma journal_mode=wal
sqlite> <run some sql>
sqlite> .quit
```
