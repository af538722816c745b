//! # io-proxy
//!
//! I/O-free proxy client coroutines. A proxy handshake is a resumable
//! state machine that emits read and write requests instead of performing
//! I/O itself: the caller owns the socket and pumps the coroutine with the
//! bytes it read, whatever the runtime (blocking, async, in-memory tests).
//!
//! - [`socks`]: SOCKS5 `CONNECT` (RFC 1928 + RFC 1929), the proxy resolving
//!   the target hostname (socks5h semantics).
//! - [`http`]: HTTP `CONNECT` tunnelling (RFC 9110 §9.3.6).
//!
//! [`coroutine`] holds the contract shared by both handshakes. Every
//! coroutine states, as a spec step function, what one resume does, and
//! every read request carries an exact byte count so that no tunnel
//! payload past the handshake is ever consumed.
pub mod bytes;
pub mod coroutine;
pub mod http;
pub mod render;
pub mod socks;
