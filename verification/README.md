# nerw_rpc

The core of an RPC framework for peer-to-peer meshes over iroh, verified with Verus.

- `src/` is the library. It holds the wire format (unary, streaming and datagram frames,
  error envelopes, relay frames and vouchers), the method registry, which resolves a name
  without a version to the latest semantic version, the dispatch of datagrams and connections, the contexts handed
  to handlers, and the steps of a call on the client's and the server's side. It touches no
  socket.
- `app/` is the networked side: iroh endpoints, streams and tasks around the library, and
  the traits that applications implement.
- `tests/` runs the library, with the crates that it calls.

Modules of the library, bottom up: `text` and `varint` (how texts, numbers and integers are
written), `codec` (the fields of messages), `error`, `wire` and `wire_error` (names,
stream-ids, error envelopes), `version` (the order of semantic versions), `method` and
`schema` (names, registry, listing), `context` and `transport` (identities, contexts,
protocol names), `streaming`, `datagram`, `transit` (frames), `server` and `client` (the two
sides).

Calls into outside crates stand in small functions marked `external_body`, each with a
comment that says what is taken on trust: `postcard` and `leb128` for the fields of
messages, `iroh` for keys and signatures, `uuid` for random identifiers, `dashmap` for the
two tables of handlers, `bytes` and the standard library for the text of values in error
messages.
