# mini_alloy_reth

A provider that answers some Ethereum RPC calls from a reth node's database,
with the decisions it takes verified by Verus.

- `src/` is the verified library:
  - `block_range`: cutting a block range into chunks, with the laws that the
    chunks cover the range exactly, in order and without overlap;
  - `filter`: the block range that a log filter selects, and the query for
    logs as a state machine that says what it needs read next;
  - `provider`: at which block state is read, where block receipts come
    from, and the nonce of a missing account;
  - `batch`: which recent blocks the batch reader looks at;
  - `layer`: the layer that holds the node's data directory;
  - `profiling`: switching jemalloc's heap profiler and dumping its profile;
  - `mallctl`: the writes at jemalloc's keys, each with a record of what it
    handed over.
- `app/` is the program: it opens the node's database and the websocket
  provider, and answers the library's requests from them.
- `tests/` runs the library on concrete values.

