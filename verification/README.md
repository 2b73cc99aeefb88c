# rex_sim

Chain state at the tip, kept in memory. A node streams every notification of
its canonical state; this library turns each of them into the next snapshot,
and serves accounts, storage slots, code and block hashes from it. What the
snapshot has never seen is fetched from the node's RPC, at the block the
snapshot is at. When the library cannot show which block it stands on, reads
fail instead of giving a plausible wrong number. The next commit then makes a
new start: nothing that was held before it is served again but code, which its
hash vouches for.

The library in `src/` is verified with Verus: every function carries a contract
over mathematical models of its data, and what holds across functions is stated
and proved as theorems.

## Layout

| module | what it holds |
| --- | --- |
| `primitives`, `account`, `code`, `block` | the values that the chain is made of |
| `table` | a map over `hashbrown`, with numbered entries |
| `sort`, `text`, `history` | sorting, numbers in file names, bounded per-block histories |
| `error`, `fetch` | errors, requests, caches that are tagged with a block |
| `validation` | whether a chain continues what is held |
| `state` | the snapshot, reads, guards |
| `transitions` | how one snapshot follows from another |
| `chain` | stretches of the chain and what is taken from them |
| `changeset` | the only writer: what each notification makes of the state |
| `guarantees` | what holds of the state across notifications |
| `manager_core`, `managers` | the fetch managers: caching, epochs, flushes |
| `fetch_guarantees` | what holds of a fetch manager whatever happens to it |
| `rpc` | what the node's replies mean |
| `stream` | reconnecting and backoff of the notification stream |
| `exex` | what the node's side passes on |
| `artifacts` | file names of captured notifications |
| `cache` | caches that are filled by fetching what is missing |
| `builder` | configuration and start |

`app/` is the program around it: the node with its extension, the gRPC client
and server, the tasks and channels, the HTTP client, and files. It holds no
rules of its own; each task performs what the library tells it and reports back
what happened.

## What is trusted

- `hashbrown::HashMap` (`new`, `get`, `insert`, `clone`) behind `table::SlotIndex`
- `alloy_primitives::keccak256`, of which nothing is claimed but that it is a
  function of its bytes
- `revm_bytecode::Bytecode::new_raw_checked` and `original_bytes`
- `std::sync::Arc::clone`
