//! SOCKS version 5 (RFC 1928) with username/password authentication
//! (RFC 1929).
//!
//! [`connect`] is the client `CONNECT` handshake coroutine; [`address`],
//! [`auth`] and [`message`] hold the wire types it exchanges.
pub mod address;
pub mod auth;
pub mod connect;
pub mod message;

use vstd::prelude::*;

verus! {

/// Protocol version byte prefixing the greeting, request and reply.
pub const VERSION: u8 = 0x05;

/// Version byte of the RFC 1929 auth sub-negotiation, distinct from
/// [`VERSION`].
pub const AUTH_VERSION: u8 = 0x01;

/// Reserved byte, always zero.
pub const RSV: u8 = 0x00;

/// `CONNECT` command.
pub const CMD_CONNECT: u8 = 0x01;

/// No-authentication method.
pub const METHOD_NO_AUTH: u8 = 0x00;

/// Username/password authentication method (RFC 1929).
pub const METHOD_USER_PASS: u8 = 0x02;

/// Sentinel the server returns when it accepts none of the offered methods.
pub const METHOD_NO_ACCEPTABLE: u8 = 0xFF;

/// IPv4 address type.
pub const ATYP_IPV4: u8 = 0x01;

/// Domain-name address type.
pub const ATYP_DOMAIN: u8 = 0x03;

/// IPv6 address type.
pub const ATYP_IPV6: u8 = 0x04;

} // verus!
