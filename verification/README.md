# io-proxy

I/O-free proxy client handshakes, verified with Verus.

A proxy handshake is a resumable state machine that emits read and write
requests instead of performing I/O: the caller owns the socket and pumps the
coroutine with the bytes it read. Two handshakes are provided:

- `socks::v5`: SOCKS5 `CONNECT` (RFC 1928) with username/password
  authentication (RFC 1929); the proxy resolves host names.
- `http::connect`: HTTP `CONNECT` tunnelling (RFC 9110 §9.3.6) with optional
  `Proxy-Authorization: Basic` (RFC 7617).

Layout:

- `src/` is the verified library. Each coroutine's `resume` is specified by a
  spec step function (`socks5_step`, `http_step`); the wire formats
  (greeting, RFC 1929 request, `CONNECT` request, address encoding) are spec
  functions over bytes. The laws at the end of each `connect.rs` are proved
  over a spec pump that serves reads from a byte stream: a successful
  handshake reads exactly the proxy's handshake messages and leaves every
  tunnel byte unread.
- `app/` is the std side: the blocking `Read + Write` pump
  (`connect_socks5`, `connect_http`) and the error types with their
  `Display` messages.
- `tests/` drives the coroutines against in-memory byte streams.
