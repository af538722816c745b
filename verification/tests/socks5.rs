use io_proxy::coroutine::{ProxyCoroutine, ProxyCoroutineState, ProxyYield};
use io_proxy::socks::v5::address::{Socks5Address, Socks5AddressError};
use io_proxy::socks::v5::auth::{Socks5Credentials, Socks5CredentialsError};
use io_proxy::socks::v5::connect::{Socks5Connect, Socks5ConnectError};
use io_proxy::socks::v5::message::Socks5Reply;

fn encode(addr: &Socks5Address) -> Vec<u8> {
    let mut out = Vec::new();
    addr.encode_into(&mut out);
    out
}

fn no_auth() -> Socks5Connect {
    Socks5Connect::new(Socks5Address::Domain("example.com".into(), 993), None)
}

fn with_auth() -> Socks5Connect {
    let creds = Socks5Credentials::new("user", "pass").unwrap();
    Socks5Connect::new(Socks5Address::Ipv4([1, 2, 3, 4], 25), Some(creds))
}

fn wants_write(cor: &mut Socks5Connect, arg: Option<&[u8]>) -> Vec<u8> {
    match cor.resume(arg) {
        ProxyCoroutineState::Yielded(ProxyYield::WantsWrite(bytes)) => bytes,
        state => panic!("expected WantsWrite, got {state:?}"),
    }
}

fn wants_read(cor: &mut Socks5Connect, arg: Option<&[u8]>) -> usize {
    match cor.resume(arg) {
        ProxyCoroutineState::Yielded(ProxyYield::WantsRead(n)) => n,
        state => panic!("expected WantsRead, got {state:?}"),
    }
}

fn complete_ok(cor: &mut Socks5Connect, arg: Option<&[u8]>) {
    match cor.resume(arg) {
        ProxyCoroutineState::Complete(Ok(())) => {}
        state => panic!("expected Complete(Ok), got {state:?}"),
    }
}

fn complete_err(cor: &mut Socks5Connect, arg: Option<&[u8]>) -> Socks5ConnectError {
    match cor.resume(arg) {
        ProxyCoroutineState::Complete(Err(err)) => err,
        state => panic!("expected Complete(Err), got {state:?}"),
    }
}

// ----- address -----

#[test]
fn new_classifies_host() {
    assert!(matches!(
        Socks5Address::new("1.2.3.4", 993),
        Ok(Socks5Address::Ipv4(_, 993))
    ));
    assert!(matches!(
        Socks5Address::new("::1", 25),
        Ok(Socks5Address::Ipv6(_, 25))
    ));
    assert!(matches!(
        Socks5Address::new("imap.example.com", 993),
        Ok(Socks5Address::Domain(_, 993))
    ));
}

#[test]
fn new_rejects_overlong_domain() {
    let host = "a".repeat(256);
    assert_eq!(
        Socks5Address::new(&host, 1),
        Err(Socks5AddressError::DomainTooLong(256))
    );
}

#[test]
fn encode_ipv4() {
    // ATYP=1, 1.2.3.4, port 993 = 0x03E1
    assert_eq!(
        encode(&Socks5Address::Ipv4([1, 2, 3, 4], 993)),
        [0x01, 1, 2, 3, 4, 0x03, 0xE1]
    );
}

#[test]
fn encode_domain() {
    // ATYP=3, len=3, "abc", port 80 = 0x0050
    assert_eq!(
        encode(&Socks5Address::Domain("abc".into(), 80)),
        [0x03, 0x03, b'a', b'b', b'c', 0x00, 0x50]
    );
}

#[test]
fn encode_ipv6() {
    // ::1, the IPv6 loopback address
    let localhost: [u8; 16] = [0, 0, 0, 0, 0, 0, 0, 0, 0, 0, 0, 0, 0, 0, 0, 1];
    let addr = Socks5Address::Ipv6(localhost, 443);
    let mut expected = vec![0x04u8];
    expected.extend_from_slice(&localhost);
    expected.extend_from_slice(&443u16.to_be_bytes());
    assert_eq!(encode(&addr), expected);
}

#[test]
fn new_keeps_ip_octets_and_domain_text() {
    assert_eq!(
        Socks5Address::new("10.20.30.40", 8080),
        Ok(Socks5Address::Ipv4([10, 20, 30, 40], 8080))
    );
    assert_eq!(
        Socks5Address::new("2001:db8::7", 443),
        Ok(Socks5Address::Ipv6(
            [0x20, 0x01, 0x0d, 0xb8, 0, 0, 0, 0, 0, 0, 0, 0, 0, 0, 0, 0x07],
            443
        ))
    );
    assert_eq!(
        Socks5Address::new("example.com", 80),
        Ok(Socks5Address::Domain("example.com".into(), 80))
    );
    // not quite an IP literal: kept as a name for the proxy to resolve
    assert_eq!(
        Socks5Address::new("1.2.3.256", 80),
        Ok(Socks5Address::Domain("1.2.3.256".into(), 80))
    );
    // exactly 255 bytes is still accepted
    let host = "b".repeat(255);
    assert_eq!(
        Socks5Address::new(&host, 1),
        Ok(Socks5Address::Domain(host.clone(), 1))
    );
}

#[test]
fn from_host_octets_builds_each_family() {
    assert_eq!(
        Socks5Address::from_host_octets("ignored", Some(vec![127, 0, 0, 1]), 1),
        Ok(Socks5Address::Ipv4([127, 0, 0, 1], 1))
    );
    assert_eq!(
        Socks5Address::from_host_octets("ignored", Some(vec![0; 16]), 2),
        Ok(Socks5Address::Ipv6([0; 16], 2))
    );
    assert_eq!(
        Socks5Address::from_host_octets("host", None, 3),
        Ok(Socks5Address::Domain("host".into(), 3))
    );
}

#[test]
fn encode_multibyte_domain_counts_bytes() {
    // "é" is two UTF-8 bytes
    assert_eq!(
        encode(&Socks5Address::Domain("é".into(), 1)),
        [0x03, 0x02, 0xC3, 0xA9, 0x00, 0x01]
    );
}

// ----- auth -----

#[test]
fn encode_matches_rfc1929() {
    let creds = Socks5Credentials::new("user", "pass").unwrap();
    // VER=1, ULEN=4, "user", PLEN=4, "pass"
    assert_eq!(
        creds.encode(),
        [0x01, 0x04, b'u', b's', b'e', b'r', 0x04, b'p', b'a', b's', b's']
    );
}

#[test]
fn rejects_overlong_fields() {
    let long = "x".repeat(256);
    assert!(matches!(
        Socks5Credentials::new(&long, "p"),
        Err(Socks5CredentialsError::UsernameTooLong(256))
    ));
    assert!(matches!(
        Socks5Credentials::new("u", &long),
        Err(Socks5CredentialsError::PasswordTooLong(256))
    ));
}

#[test]
fn auth_debug_redacts_password() {
    let creds = Socks5Credentials::new("alice", "secret").unwrap();
    let rendered = creds.debug_string();
    assert!(rendered.contains("alice"));
    assert!(!rendered.contains("secret"));
}

#[test]
fn credentials_edge_lengths() {
    let max = "y".repeat(255);
    assert!(Socks5Credentials::new(&max, &max).is_ok());
    // the username is checked before the password
    let long = "z".repeat(300);
    assert_eq!(
        Socks5Credentials::new(&long, &long).err(),
        Some(Socks5CredentialsError::UsernameTooLong(300))
    );
    let empty = Socks5Credentials::new("", "").unwrap();
    assert_eq!(empty.encode(), [0x01, 0x00, 0x00]);
}

#[test]
fn credentials_debug_string_exact() {
    let creds = Socks5Credentials::new("alice", "secret").unwrap();
    assert_eq!(
        creds.debug_string(),
        "Socks5Credentials { username: \"alice\", password: \"***\" }"
    );
    assert_eq!(creds.clone().encode(), creds.encode());
}

// ----- reply codes -----

#[test]
fn from_u8_covers_rfc_range() {
    assert_eq!(Socks5Reply::from_u8(0x00), Some(Socks5Reply::Succeeded));
    assert_eq!(
        Socks5Reply::from_u8(0x08),
        Some(Socks5Reply::AddressTypeNotSupported)
    );
    assert_eq!(Socks5Reply::from_u8(0x09), None);
    assert_eq!(Socks5Reply::from_u8(0xFF), None);
}

#[test]
fn from_u8_every_code_and_text() {
    let expected = [
        (Socks5Reply::Succeeded, "succeeded"),
        (Socks5Reply::GeneralFailure, "general SOCKS server failure"),
        (Socks5Reply::ConnectionNotAllowed, "connection not allowed by ruleset"),
        (Socks5Reply::NetworkUnreachable, "network unreachable"),
        (Socks5Reply::HostUnreachable, "host unreachable"),
        (Socks5Reply::ConnectionRefused, "connection refused"),
        (Socks5Reply::TtlExpired, "TTL expired"),
        (Socks5Reply::CommandNotSupported, "command not supported"),
        (Socks5Reply::AddressTypeNotSupported, "address type not supported"),
    ];
    for (code, (reply, text)) in expected.iter().enumerate() {
        assert_eq!(Socks5Reply::from_u8(code as u8), Some(*reply));
        assert_eq!(reply.description(), *text);
    }
}

// ----- connect coroutine -----

#[test]
fn no_auth_domain_reply_happy_path() {
    let mut cor = no_auth();

    // greeting: offer no-auth only
    assert_eq!(wants_write(&mut cor, None), [0x05, 0x01, 0x00]);
    // method selection read
    assert_eq!(wants_read(&mut cor, None), 2);
    // server picks no-auth -> connect request with domain address
    let req = wants_write(&mut cor, Some(&[0x05, 0x00]));
    let mut expected = vec![0x05, 0x01, 0x00, 0x03, 11];
    expected.extend_from_slice(b"example.com");
    expected.extend_from_slice(&993u16.to_be_bytes());
    assert_eq!(req, expected);
    // reply head read
    assert_eq!(wants_read(&mut cor, None), 4);
    // reply: success, domain-typed bound address
    assert_eq!(wants_read(&mut cor, Some(&[0x05, 0x00, 0x00, 0x03])), 1);
    // domain length = 3 -> tail of 3 + 2 port
    assert_eq!(wants_read(&mut cor, Some(&[0x03])), 5);
    complete_ok(&mut cor, Some(&[b'a', b'b', b'c', 0x00, 0x50]));
}

#[test]
fn user_pass_ipv4_reply_happy_path() {
    let mut cor = with_auth();

    // greeting: offer no-auth + user/pass
    assert_eq!(wants_write(&mut cor, None), [0x05, 0x02, 0x00, 0x02]);
    assert_eq!(wants_read(&mut cor, None), 2);
    // server selects user/pass -> auth sub-negotiation
    let auth = wants_write(&mut cor, Some(&[0x05, 0x02]));
    assert_eq!(
        auth,
        [0x01, 0x04, b'u', b's', b'e', b'r', 0x04, b'p', b'a', b's', b's']
    );
    // auth status read
    assert_eq!(wants_read(&mut cor, None), 2);
    // auth ok -> connect request
    let _req = wants_write(&mut cor, Some(&[0x01, 0x00]));
    assert_eq!(wants_read(&mut cor, None), 4);
    // reply: success, IPv4 bound address -> tail of 4 + 2
    assert_eq!(wants_read(&mut cor, Some(&[0x05, 0x00, 0x00, 0x01])), 6);
    complete_ok(&mut cor, Some(&[0, 0, 0, 0, 0, 0]));
}

#[test]
fn server_requires_auth_without_credentials() {
    let mut cor = no_auth();
    wants_write(&mut cor, None);
    wants_read(&mut cor, None);
    let err = complete_err(&mut cor, Some(&[0x05, 0x02]));
    assert_eq!(err, Socks5ConnectError::AuthRequired);
}

#[test]
fn no_acceptable_method() {
    let mut cor = no_auth();
    wants_write(&mut cor, None);
    wants_read(&mut cor, None);
    let err = complete_err(&mut cor, Some(&[0x05, 0xFF]));
    assert_eq!(err, Socks5ConnectError::NoAcceptableAuthMethod);
}

#[test]
fn rejected_auth() {
    let mut cor = with_auth();
    wants_write(&mut cor, None);
    wants_read(&mut cor, None);
    wants_write(&mut cor, Some(&[0x05, 0x02]));
    wants_read(&mut cor, None);
    let err = complete_err(&mut cor, Some(&[0x01, 0x01]));
    assert_eq!(err, Socks5ConnectError::AuthRejected);
}

#[test]
fn reply_failure_maps_to_reply_error() {
    let mut cor = no_auth();
    wants_write(&mut cor, None);
    wants_read(&mut cor, None);
    wants_write(&mut cor, Some(&[0x05, 0x00]));
    wants_read(&mut cor, None);
    // REP = 0x04 host unreachable
    let err = complete_err(&mut cor, Some(&[0x05, 0x04, 0x00, 0x01]));
    assert_eq!(err, Socks5ConnectError::Reply(Socks5Reply::HostUnreachable));
}

#[test]
fn unexpected_version() {
    let mut cor = no_auth();
    wants_write(&mut cor, None);
    wants_read(&mut cor, None);
    let err = complete_err(&mut cor, Some(&[0x04, 0x00]));
    assert_eq!(err, Socks5ConnectError::UnexpectedVersion(0x04));
}

/// Drives a fresh coroutine to the reply head.
fn at_reply_head() -> Socks5Connect {
    let mut cor = no_auth();
    wants_write(&mut cor, None);
    wants_read(&mut cor, None);
    wants_write(&mut cor, Some(&[0x05, 0x00]));
    wants_read(&mut cor, None);
    cor
}

#[test]
fn every_error_variant_has_its_input() {
    // method selection
    let mut cor = no_auth();
    wants_write(&mut cor, None);
    wants_read(&mut cor, None);
    assert_eq!(
        complete_err(&mut cor, Some(&[0x05, 0x07])),
        Socks5ConnectError::UnsupportedAuthMethod(0x07)
    );
    let mut cor = no_auth();
    wants_write(&mut cor, None);
    assert_eq!(
        complete_err(&mut cor, Some(&[0x05])),
        Socks5ConnectError::Malformed
    );
    // auth status
    let mut cor = with_auth();
    wants_write(&mut cor, None);
    wants_read(&mut cor, None);
    wants_write(&mut cor, Some(&[0x05, 0x02]));
    assert_eq!(
        complete_err(&mut cor, Some(&[0x05, 0x00])),
        Socks5ConnectError::UnexpectedAuthVersion(0x05)
    );
    // reply head
    let mut cor = at_reply_head();
    assert_eq!(
        complete_err(&mut cor, Some(&[0x05, 0x09, 0x00, 0x01])),
        Socks5ConnectError::UnknownReply(0x09)
    );
    let mut cor = at_reply_head();
    assert_eq!(
        complete_err(&mut cor, Some(&[0x05, 0x00, 0x00, 0x02])),
        Socks5ConnectError::UnknownAddressType(0x02)
    );
    let mut cor = at_reply_head();
    assert_eq!(
        complete_err(&mut cor, Some(&[0x05, 0x00, 0x00, 0x01, 0x00])),
        Socks5ConnectError::Malformed
    );
    let mut cor = at_reply_head();
    assert_eq!(
        complete_err(&mut cor, Some(&[0x04, 0x00, 0x00, 0x01])),
        Socks5ConnectError::UnexpectedVersion(0x04)
    );
}

#[test]
fn ipv6_bound_address_and_offered_no_auth_with_credentials() {
    // credentials offered but the proxy picks no-auth: no sub-negotiation
    let mut cor = with_auth();
    wants_write(&mut cor, None);
    wants_read(&mut cor, None);
    let req = wants_write(&mut cor, Some(&[0x05, 0x00]));
    assert_eq!(req, [0x05, 0x01, 0x00, 0x01, 1, 2, 3, 4, 0x00, 0x19]);
    assert_eq!(wants_read(&mut cor, None), 4);
    assert_eq!(wants_read(&mut cor, Some(&[0x05, 0x00, 0x00, 0x04])), 18);
    // a read request is repeated until the bytes are handed over
    assert_eq!(wants_read(&mut cor, None), 18);
    complete_ok(&mut cor, Some(&[0u8; 18]));
}

#[test]
fn longest_domain_bound_address() {
    let mut cor = at_reply_head();
    assert_eq!(wants_read(&mut cor, Some(&[0x05, 0x00, 0x00, 0x03])), 1);
    assert_eq!(wants_read(&mut cor, Some(&[0xFF])), 257);
}

#[test]
fn bound_address_tail_must_match_its_framing() {
    // IPv4 tail is 6 bytes: 3 are too few
    let mut cor = at_reply_head();
    assert_eq!(wants_read(&mut cor, Some(&[0x05, 0x00, 0x00, 0x01])), 6);
    assert_eq!(
        complete_err(&mut cor, Some(&[0, 0, 0])),
        Socks5ConnectError::Malformed
    );
    // domain tail of 3 + 2 bytes: 6 are too many
    let mut cor = at_reply_head();
    assert_eq!(wants_read(&mut cor, Some(&[0x05, 0x00, 0x00, 0x03])), 1);
    assert_eq!(wants_read(&mut cor, Some(&[0x03])), 5);
    assert_eq!(
        complete_err(&mut cor, Some(&[b'a', b'b', b'c', 0x00, 0x50, 0x00])),
        Socks5ConnectError::Malformed
    );
}

#[test]
fn debug_string_escapes_username() {
    let creds = Socks5Credentials::new("a\"b\n", "secret").unwrap();
    assert_eq!(
        creds.debug_string(),
        "Socks5Credentials { username: \"a\\\"b\\n\", password: \"***\" }"
    );
}
