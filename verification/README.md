# rust_sqlite_async

A manager for one SQLite database. Writes are queued through a bounded channel
for a dedicated worker, which runs them batch by batch, each batch in one
transaction. Reads go through a pool of connections.

- `src/` is the library, verified with Verus. `async_sqlite` is the manager that
  callers hold, `worker` the state machine of the worker, `read` the reads and
  `ready` what is known of the worker's readiness.
  `history` says what a run of the worker amounts to and `laws` what holds of
  every run: what is committed, in which order, and who is notified when.
  `callers` speaks of several callers on one queue, `lifetime` of one database
  over several workers.
- `app/` puts threads, connections and waiting around it.
- `tests/` runs the library, with a worker on real databases.

A synchronisation is answered only after the batch it belongs to has been
committed. Where the batch fails, its writes are lost, nobody who waits on it is
notified, and the worker goes on with the next batch.
