//! SOCKS proxy protocol, versioned from within.
//!
//! Only [`v5`] (RFC 1928 + RFC 1929) is implemented; a SOCKS4/4a would
//! slot in as its own module alongside.
pub mod v5;
