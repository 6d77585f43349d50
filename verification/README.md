# lattica

The core of a peer-to-peer networking node, written in Verus: every function
under `src/` carries a contract that Verus proves.

## Layout

- `src/compression.rs`: which payloads are compressed, and compression and
  decompression through `async-compression` (decompressing what was
  compressed gives the payload back).
- `src/addr.rs`, `src/bytes.rs`: multiaddresses as sequences of components,
  peer ids, relay-circuit addresses; small byte and text helpers.
- `src/peers.rs`, `src/assoc.rs`: the address book (one record per peer, each
  address once), kept as an association list with its invariant.
- `src/rpc.rs`, `src/stream.rs`: request routing, payload compression on the
  wire, length-prefixed frames, and chunked stream replies that reassemble to
  the reply.
- `src/queries.rs`: the table of pending DHT and block queries and the answer
  each progress event gives.
- `src/nat_check.rs`, `src/retry.rs`: symmetric-NAT classification from STUN
  answers, and the retry schedules.
- `src/store.rs`, `src/fs_blockstore.rs`: expiry rules of the record store and
  the file layout of the block store.
- `src/config.rs`, `src/events.rs`: default configuration and the reactions to
  identify, relay, gossip and rendezvous events.
- `app/`: the asynchronous drivers (sockets, files, the database, the swarm)
  that call the library and perform what it decides.
- `tests/`: tests of the library on concrete values.
