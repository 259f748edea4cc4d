# reth_pool_stages

A verified library for two parts of an Ethereum node: the transaction pool,
which sorts incoming transactions into sub-pools by what they need before
they can be included in a block, and the staged sync pipeline, which runs a
chain of stages forward and unwinds them after a bad block.

Every function under `src/` carries a contract, and Verus proves each one
except the four wrappers in `src/pool/sender_map.rs`: their bodies call
`fnv`'s hash map, and their contracts are trusted.

## Layout

- `src/primitives.rs` — block numbers, 256-bit numbers, hashes, headers.
- `src/pool/` — the pool: transaction ids and states, the container of all
  transactions (`txpool.rs`), the pending and parked sub-pools, the pool that
  ties them together (`graph.rs`), and the laws relating them (`moves.rs`,
  the `lemma_*` functions of `graph.rs`).
  `sender_map.rs` holds the contracts of the `fnv` hash-map calls the pool
  makes.
- `src/stages/` — the pipeline as a state machine (`pipeline.rs`): it says
  which checkpoint to read, which stage to run or unwind, and what to save;
  the caller performs those requests. Around it: stage inputs and outputs,
  checkpoints, stage sets and their builder, and the decisions of the
  headers, bodies, total difficulty and merkle stages.
- `src/storage/` — body indices, the table list, the chain info tracker and
  the choice of state a query is answered from.
- `tests/` — scenarios on concrete values.
- `app/` — plain Rust around the library: conversions to the outside
  crates' types, serialisable copies of library types, and a loop that
  drives the pipeline against a host that does the I/O.
