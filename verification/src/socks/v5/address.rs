//! SOCKS5 target address (RFC 1928 §4): the `ATYP`/`DST.ADDR`/`DST.PORT`
//! fields of the `CONNECT` request.
use vstd::prelude::*;
use vstd::string::*;
use vstd::utf8::*;

use crate::bytes::append_bytes;
use crate::socks::v5::{ATYP_DOMAIN, ATYP_IPV4, ATYP_IPV6};

verus! {

/// Failure building a [`Socks5Address`].
#[derive(Clone, Debug, PartialEq, Eq, Structural)]
pub enum Socks5AddressError {
    /// The domain name exceeds the 255-byte field limit; carries its length.
    DomainTooLong(usize),
}

/// A SOCKS5 target address.
///
/// A hostname is kept as a `Domain` so the proxy resolves it (socks5h
/// semantics); a literal IP is sent as `Ipv4` / `Ipv6`, each carrying its
/// octets in network order.
#[derive(Clone, Debug, PartialEq, Eq)]
pub enum Socks5Address {
    /// IPv4 address octets and port.
    Ipv4([u8; 4], u16),
    /// IPv6 address octets and port.
    Ipv6([u8; 16], u16),
    /// Domain name (at most 255 bytes) and port, resolved by the proxy.
    Domain(String, u16),
}

/// A port in network byte order.
pub open spec fn port_bytes(port: u16) -> Seq<u8> {
    seq![(port / 256) as u8, (port % 256) as u8]
}

/// The `ATYP | DST.ADDR | DST.PORT` encoding of `addr`. The domain length
/// byte is the length of the name's UTF-8 bytes, truncated to a byte.
pub open spec fn address_bytes(addr: Socks5Address) -> Seq<u8> {
    match addr {
        Socks5Address::Ipv4(ip, port) => seq![ATYP_IPV4] + ip@ + port_bytes(port),
        Socks5Address::Ipv6(ip, port) => seq![ATYP_IPV6] + ip@ + port_bytes(port),
        Socks5Address::Domain(name, port) => {
            let name_bytes = encode_utf8(name@);
            seq![ATYP_DOMAIN, (name_bytes.len() % 256) as u8] + name_bytes + port_bytes(port)
        },
    }
}

/// What the host classifies as, given the octets of the IP literal it
/// parses as (if any): `Ipv4`/`Ipv6` for a literal, else a `Domain` bounded
/// to 255 bytes.
pub open spec fn classified(
    addr: Result<Socks5Address, Socks5AddressError>,
    host: &str,
    octets: Option<Seq<u8>>,
    port: u16,
) -> bool {
    match octets {
        Some(o) => if o.len() == 4 {
            addr matches Ok(Socks5Address::Ipv4(ip, p)) && ip@ == o && p == port
        } else {
            addr matches Ok(Socks5Address::Ipv6(ip, p)) && ip@ == o && p == port
        },
        None => if host.spec_bytes().len() > 255 {
            addr == Err::<Socks5Address, _>(
                Socks5AddressError::DomainTooLong(host.spec_bytes().len() as usize),
            )
        } else {
            addr matches Ok(Socks5Address::Domain(name, p)) && name@ == host@ && p == port
        },
    }
}

/// The octets of the IP address (4 for IPv4, 16 for IPv6) that the text
/// parses as under `core::net::IpAddr`'s `FromStr`, or `None` when it is
/// not an IP literal.
pub uninterp spec fn ip_literal_octets(host: Seq<char>) -> Option<Seq<u8>>;

/// Whether `c` can appear in an IP literal: a hexadecimal digit, `.` or `:`.
pub open spec fn ip_literal_char(c: char) -> bool {
    ||| '0' <= c <= '9'
    ||| 'a' <= c <= 'f'
    ||| 'A' <= c <= 'F'
    ||| c == '.'
    ||| c == ':'
}

/// Whether `host` holds a character that no IP literal holds.
pub open spec fn has_non_ip_char(host: Seq<char>) -> bool {
    exists|i: int| 0 <= i < host.len() && !ip_literal_char(#[trigger] host[i])
}

/// Parses `host` with `<core::net::IpAddr as FromStr>::from_str`.
///
/// Trusted: the result is the named `ip_literal_octets` of the text; an
/// address has 4 octets (IPv4) or 16 (IPv6), as the std documentation of
/// `Ipv4Addr::octets` and `Ipv6Addr::octets` gives; and a text with a
/// character outside hexadecimal digits, `.` and `:` is no IP literal, since
/// the dotted-decimal IPv4 and the RFC 4291 IPv6 text forms that std
/// documents use no other. Which other texts parse is left to the name.
#[verifier::external_body]
fn parse_ip_literal(host: &str) -> (octets: Option<Vec<u8>>)
    ensures
        match octets {
            Some(v) => ip_literal_octets(host@) == Some(v@),
            None => ip_literal_octets(host@) is None,
        },
        octets matches Some(v) ==> v@.len() == 4 || v@.len() == 16,
        has_non_ip_char(host@) ==> octets is None,
{
    match host.parse::<core::net::IpAddr>() {
        Ok(core::net::IpAddr::V4(ip)) => Some(ip.octets().to_vec()),
        Ok(core::net::IpAddr::V6(ip)) => Some(ip.octets().to_vec()),
        Err(_) => None,
    }
}

/// Appends `port` in network byte order to `out`.
pub(crate) fn append_port(out: &mut Vec<u8>, port: u16)
    ensures
        final(out)@ == old(out)@ + port_bytes(port),
{
    out.push((port / 256) as u8);
    out.push((port % 256) as u8);
}

impl Socks5Address {
    /// Builds an address from a host string and port.
    ///
    /// A host that parses as an IP literal becomes `Ipv4`/`Ipv6`; anything
    /// else becomes a `Domain` (refused beyond 255 bytes) for the proxy to
    /// resolve.
    pub fn new(host: &str, port: u16) -> (addr: Result<Socks5Address, Socks5AddressError>)
        ensures
            classified(addr, host, ip_literal_octets(host@), port),
            has_non_ip_char(host@) ==> classified(addr, host, None, port),
    {
        let octets = parse_ip_literal(host);
        Socks5Address::from_host_octets(host, octets, port)
    }

    /// Builds an address from a host string, the octets of the IP literal
    /// it parses as (if any), and a port.
    pub fn from_host_octets(host: &str, octets: Option<Vec<u8>>, port: u16) -> (addr: Result<
        Socks5Address,
        Socks5AddressError,
    >)
        requires
            octets matches Some(v) ==> v@.len() == 4 || v@.len() == 16,
        ensures
            classified(
                addr,
                host,
                match octets {
                    Some(v) => Some(v@),
                    None => None,
                },
                port,
            ),
    {
        match octets {
            Some(v) => {
                if v.len() == 4 {
                    let ip: [u8; 4] = [v[0], v[1], v[2], v[3]];
                    assert(ip@ =~= v@);
                    Ok(Socks5Address::Ipv4(ip, port))
                } else {
                    let ip: [u8; 16] = [
                        v[0],
                        v[1],
                        v[2],
                        v[3],
                        v[4],
                        v[5],
                        v[6],
                        v[7],
                        v[8],
                        v[9],
                        v[10],
                        v[11],
                        v[12],
                        v[13],
                        v[14],
                        v[15],
                    ];
                    assert(ip@ =~= v@);
                    Ok(Socks5Address::Ipv6(ip, port))
                }
            },
            None => {
                let len = host.as_bytes().len();
                if len > 255 {
                    Err(Socks5AddressError::DomainTooLong(len))
                } else {
                    Ok(Socks5Address::Domain(host.to_owned(), port))
                }
            },
        }
    }

    /// Appends the `ATYP`/`DST.ADDR`/`DST.PORT` encoding to `out`.
    pub fn encode_into(&self, out: &mut Vec<u8>)
        ensures
            final(out)@ == old(out)@ + address_bytes(*self),
    {
        match self {
            Socks5Address::Ipv4(ip, port) => {
                out.push(ATYP_IPV4);
                append_bytes(out, ip.as_slice());
                append_port(out, *port);
            },
            Socks5Address::Ipv6(ip, port) => {
                out.push(ATYP_IPV6);
                append_bytes(out, ip.as_slice());
                append_port(out, *port);
            },
            Socks5Address::Domain(name, port) => {
                let bytes = name.as_str().as_bytes();
                out.push(ATYP_DOMAIN);
                out.push((bytes.len() % 256) as u8);
                append_bytes(out, bytes);
                append_port(out, *port);
            },
        }
    }
}

/// The port of an address.
pub open spec fn address_port(addr: Socks5Address) -> u16 {
    match addr {
        Socks5Address::Ipv4(_, port) => port,
        Socks5Address::Ipv6(_, port) => port,
        Socks5Address::Domain(_, port) => port,
    }
}

/// Two bytes in network order read back as the port they encode.
proof fn lemma_port_bytes(port: u16)
    ensures
        port_bytes(port).len() == 2,
        port_bytes(port)[0] * 256 + port_bytes(port)[1] == port,
{
    assert(port / 256 < 256);
}

/// The address encoding reads back: its type byte, then the 4 or 16 IPv4 or
/// IPv6 octets, or a name-length byte and the name's UTF-8 bytes (for a
/// name of at most 255 bytes), then the port in network order, so its last
/// two bytes `hi, lo` give back `hi * 256 + lo == port`.
pub proof fn law_address_encoding_reads_back(addr: Socks5Address)
    ensures
        ({
            let b = address_bytes(addr);
            &&& b.len() >= 3
            &&& b[b.len() - 2] * 256 + b[b.len() - 1] == address_port(addr)
            &&& addr matches Socks5Address::Ipv4(ip, _) ==> b.len() == 7 && b[0] == 0x01
                && b.subrange(1, 5) == ip@
            &&& addr matches Socks5Address::Ipv6(ip, _) ==> b.len() == 19 && b[0] == 0x04
                && b.subrange(1, 17) == ip@
            &&& addr matches Socks5Address::Domain(name, _) ==> {
                let name_bytes = encode_utf8(name@);
                name_bytes.len() <= 255 ==> b.len() == name_bytes.len() + 4 && b[0] == 0x03 && b[1]
                    == name_bytes.len() && b.subrange(2, 2 + name_bytes.len() as int) == name_bytes
            }
        }),
{
    let b = address_bytes(addr);
    let port = address_port(addr);
    lemma_port_bytes(port);
    let pb = port_bytes(port);
    assert(b.subrange(b.len() - 2, b.len() as int) =~= pb);
    assert(b[b.len() - 2] == pb[0] && b[b.len() - 1] == pb[1]);
    match addr {
        Socks5Address::Ipv4(ip, _) => {
            assert(b.subrange(1, 5) =~= ip@);
        },
        Socks5Address::Ipv6(ip, _) => {
            assert(b.subrange(1, 17) =~= ip@);
        },
        Socks5Address::Domain(name, _) => {
            let name_bytes = encode_utf8(name@);
            assert(b.subrange(2, 2 + name_bytes.len() as int) =~= name_bytes);
        },
    }
}

} // verus!
