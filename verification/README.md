# keychain

The wire protocol of the keychain daemon, verified with Verus.

- `src/` is the verified library: the little-endian encoding of the protocol's
  fields and packets (`encode`, `packet`), the length-prefixed frames that carry
  packets on a stream (`stream`), the daemon's handshake decisions (`session`),
  the protocol version (`version`), and the listing text of stored keys
  (`passkey`). `buffer` declares the `bytes` crate's buffers and the calls made
  on them; their contracts are trusted.
- `app/` holds the programs around it: the socket I/O of a connection, the
  daemon's accept loop, and the command-line client.
- `tests/` runs the library on concrete inputs.
