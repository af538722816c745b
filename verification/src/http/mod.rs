//! HTTP proxy tunnelling.
//!
//! [`connect`] is the client `CONNECT` handshake coroutine (RFC 9110
//! §9.3.6).
pub mod connect;
