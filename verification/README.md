# stellarconduit_core

The mesh-networking core of StellarConduit, written in Verus. Verus checks
every function under `src/`; their contracts state what each returns or
changes, except for the metrics counters, which are atomics that the
contracts do not follow.

## Layout

- `src/discovery/` — the peer list (expiry, bans), the mDNS advertisement and
  the reading of a peer's public key from its TXT records.
- `src/gossip/` — the priority queue, anti-entropy sync, the macro-merge
  backlog, fanout sizing and random peer choice, the sliding-window Bloom
  filter, signature strikes, and the decisions of one fanout round.
- `src/relay/` — the deduplicator of submitted envelopes, Soroban JSON-RPC
  requests and answers, and hash decoding.
- `src/router/` — the LRU routing table.
- `src/security/` — per-peer rate limiting.
- `src/transport/` — synchronized low-power scheduling.
- `src/peer/`, `src/message/`, `src/time.rs`, `src/keys.rs`, `src/text.rs` —
  shared types and helpers.
- `src/lru_cache.rs` — the `lru` crate's cache as the library uses it.

Calls into outside crates (`lru`, `governor`, `rand`, `hex`) and into parts of
std without a Verus specification go through small `external_body` wrappers
whose contracts state what the crate's source or documentation promises.
Public `proof fn`s named `lemma_*` state the library's laws: read-your-write
for the caches, the anti-entropy round trip, the advertisement round trip,
the duplicate-suppression window of the Bloom filter, and others.

`app/` is the daemon around the library: argument parsing, the tokio event
loop, mDNS sockets and the HTTP client.
