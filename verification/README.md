# eventrelay

A relay for events across a network of peer servers, with its core verified
by Verus.

- `src/` is the verified library: the error codes, the TLV wire format
  (encoding, parsing, field and event extraction), the subscription table,
  the registry of connections, the event handler and the decisions that the
  network layer takes on each frame (routing, handshakes, events,
  reconnection). Laws that span several calls are public proof functions in
  `src/tlv/laws.rs`, `src/eventrelay/laws.rs`, `src/error/mod.rs` and
  `src/eventrelay/net/reconnector.rs`.
- `app/` is the server program around it: TOML configuration, TCP
  connections, the read and write tasks of each connection, peer
  (re)connection and logging.
- `tests/` runs the library on concrete values.

The server reads `config.toml`:

```toml
id = "server1"
bind_addr = "127.0.0.1:8080"
peers = ["127.0.0.1:8081", "127.0.0.1:8082"]
public_channels = ["announcements", "general", "support"]
```
