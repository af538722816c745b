//! SOCKS5 reply codes (RFC 1928 §6).
use vstd::prelude::*;

verus! {

/// Reply code carried in the `REP` field of a SOCKS5 reply.
#[derive(Clone, Copy, Debug, PartialEq, Eq, Structural)]
pub enum Socks5Reply {
    /// `0x00` succeeded.
    Succeeded,
    /// `0x01` general SOCKS server failure.
    GeneralFailure,
    /// `0x02` connection not allowed by ruleset.
    ConnectionNotAllowed,
    /// `0x03` network unreachable.
    NetworkUnreachable,
    /// `0x04` host unreachable.
    HostUnreachable,
    /// `0x05` connection refused.
    ConnectionRefused,
    /// `0x06` TTL expired.
    TtlExpired,
    /// `0x07` command not supported.
    CommandNotSupported,
    /// `0x08` address type not supported.
    AddressTypeNotSupported,
}

impl Socks5Reply {
    /// The `REP` byte RFC 1928 assigns to this reply.
    pub open spec fn code(self) -> u8 {
        match self {
            Socks5Reply::Succeeded => 0x00,
            Socks5Reply::GeneralFailure => 0x01,
            Socks5Reply::ConnectionNotAllowed => 0x02,
            Socks5Reply::NetworkUnreachable => 0x03,
            Socks5Reply::HostUnreachable => 0x04,
            Socks5Reply::ConnectionRefused => 0x05,
            Socks5Reply::TtlExpired => 0x06,
            Socks5Reply::CommandNotSupported => 0x07,
            Socks5Reply::AddressTypeNotSupported => 0x08,
        }
    }

    /// The reply whose `REP` byte is `byte`, if RFC 1928 defines one.
    pub open spec fn spec_from_u8(byte: u8) -> Option<Socks5Reply> {
        match byte {
            0x00 => Some(Socks5Reply::Succeeded),
            0x01 => Some(Socks5Reply::GeneralFailure),
            0x02 => Some(Socks5Reply::ConnectionNotAllowed),
            0x03 => Some(Socks5Reply::NetworkUnreachable),
            0x04 => Some(Socks5Reply::HostUnreachable),
            0x05 => Some(Socks5Reply::ConnectionRefused),
            0x06 => Some(Socks5Reply::TtlExpired),
            0x07 => Some(Socks5Reply::CommandNotSupported),
            0x08 => Some(Socks5Reply::AddressTypeNotSupported),
            _ => None,
        }
    }

    /// Maps a raw `REP` byte to its [`Socks5Reply`], or `None` for a code
    /// outside the RFC 1928 range.
    pub fn from_u8(byte: u8) -> (reply: Option<Socks5Reply>)
        ensures
            reply == Socks5Reply::spec_from_u8(byte),
            reply is Some <==> byte <= 0x08,
            reply matches Some(r) ==> r.code() == byte,
    {
        let reply = match byte {
            0x00 => Socks5Reply::Succeeded,
            0x01 => Socks5Reply::GeneralFailure,
            0x02 => Socks5Reply::ConnectionNotAllowed,
            0x03 => Socks5Reply::NetworkUnreachable,
            0x04 => Socks5Reply::HostUnreachable,
            0x05 => Socks5Reply::ConnectionRefused,
            0x06 => Socks5Reply::TtlExpired,
            0x07 => Socks5Reply::CommandNotSupported,
            0x08 => Socks5Reply::AddressTypeNotSupported,
            _ => return None,
        };
        Some(reply)
    }

    /// The human-readable text of this reply (its `Display` form).
    pub open spec fn spec_description(self) -> &'static str {
        match self {
            Socks5Reply::Succeeded => "succeeded",
            Socks5Reply::GeneralFailure => "general SOCKS server failure",
            Socks5Reply::ConnectionNotAllowed => "connection not allowed by ruleset",
            Socks5Reply::NetworkUnreachable => "network unreachable",
            Socks5Reply::HostUnreachable => "host unreachable",
            Socks5Reply::ConnectionRefused => "connection refused",
            Socks5Reply::TtlExpired => "TTL expired",
            Socks5Reply::CommandNotSupported => "command not supported",
            Socks5Reply::AddressTypeNotSupported => "address type not supported",
        }
    }

    /// The human-readable text of this reply, as its `Display` form shows it.
    pub fn description(&self) -> (text: &'static str)
        ensures
            text@ == self.spec_description()@,
    {
        match self {
            Socks5Reply::Succeeded => "succeeded",
            Socks5Reply::GeneralFailure => "general SOCKS server failure",
            Socks5Reply::ConnectionNotAllowed => "connection not allowed by ruleset",
            Socks5Reply::NetworkUnreachable => "network unreachable",
            Socks5Reply::HostUnreachable => "host unreachable",
            Socks5Reply::ConnectionRefused => "connection refused",
            Socks5Reply::TtlExpired => "TTL expired",
            Socks5Reply::CommandNotSupported => "command not supported",
            Socks5Reply::AddressTypeNotSupported => "address type not supported",
        }
    }
}

/// Distinct replies carry distinct `REP` bytes, so `from_u8` determines
/// its reply uniquely from the byte.
pub proof fn law_reply_code_injective(a: Socks5Reply, b: Socks5Reply)
    ensures
        a.code() == b.code() ==> a == b,
{
}

/// Every `REP` byte RFC 1928 defines (`00` to `08`) maps to the reply with
/// that code, and no other byte maps to a reply.
pub proof fn law_reply_from_code(byte: u8)
    ensures
        Socks5Reply::spec_from_u8(byte) is Some <==> byte <= 0x08,
        Socks5Reply::spec_from_u8(byte) matches Some(r) ==> r.code() == byte,
{
}

} // verus!
