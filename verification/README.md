# quinn-h3

The protocol side of HTTP/3 clients, verified with Verus.

- `src/qpack`: header compression, both directions, with the dynamic table and its limits.
- `src/proto`: integers, settings, frames, headers, and the state of a connection that does not
  depend on the transport.
- `src/connection.rs`, `src/streams.rs`, `src/frame.rs`, `src/headers.rs`: the streams of a
  connection and the tasks that wait on them. The transport reports events; the state answers.
- `src/client.rs`: requests and responses as states that the transport drives.
- `src/laws.rs`, `src/proto/laws.rs`, `src/qpack/laws.rs`: what holds across operations.
- `src/buffer.rs`, `src/http_syntax.rs`, `src/text.rs`: what is taken from `bytes`, `http` and
  the standard library, with the contracts that are relied on.
- `app`: the futures around it, over `quinn`.
