# celeborn_shuffle

Shuffle over a remote Celeborn cluster, with the decisions of the shuffle verified in
Verus.

- `src/` is the verified library: shuffle identifiers and read tasks
  (`shuffle_backend`, `celeborn_backend`), the repartition sink and its Celeborn
  counters (`repartition`, `celeborn_sink`), the bookkeeping in front of the native
  client (`ffi`), the loop that reads a partition (`partition_read`), an in-memory
  store (`mock`), and laws that span them (`end_to_end`).
- `app/` performs what the library asks for: network calls, Arrow decoding, locks and
  asynchronous plumbing.
- `tests/` runs the library on concrete values.

Work that needs the outside world is written as a task: it names the next action, the
application performs the action, and the task takes up the outcome.
