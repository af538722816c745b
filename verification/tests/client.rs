//! Drives the handshakes over an in-memory fake proxy with an exact-read
//! pump, as the blocking client does.
use std::io::{self, Cursor, Read, Write};

use io_proxy::coroutine::{ProxyCoroutine, ProxyCoroutineState, ProxyYield};
use io_proxy::http::connect::{HttpConnect, HttpConnectError};
use io_proxy::socks::v5::address::Socks5Address;
use io_proxy::socks::v5::connect::{Socks5Connect, Socks5ConnectError};

/// A fake proxy: hands out `to_read` on reads, records writes.
struct Fake {
    to_read: Cursor<Vec<u8>>,
    written: Vec<u8>,
}

impl Read for Fake {
    fn read(&mut self, buf: &mut [u8]) -> io::Result<usize> {
        self.to_read.read(buf)
    }
}

impl Write for Fake {
    fn write(&mut self, buf: &[u8]) -> io::Result<usize> {
        self.written.extend_from_slice(buf);
        Ok(buf.len())
    }
    fn flush(&mut self) -> io::Result<()> {
        Ok(())
    }
}

#[derive(Debug)]
enum PumpError<E> {
    Handshake(E),
    Io(io::Error),
}

/// Runs `coroutine` to completion, writing every write request in full and
/// serving every read request with an exact read.
fn run<S: Read + Write, C, E>(stream: &mut S, mut coroutine: C) -> Result<(), PumpError<E>>
where
    C: ProxyCoroutine<Yield = ProxyYield, Return = Result<(), E>>,
{
    let mut buf = [0u8; 258];
    let mut arg: Option<&[u8]> = None;
    loop {
        match coroutine.resume(arg.take()) {
            ProxyCoroutineState::Complete(Ok(())) => return Ok(()),
            ProxyCoroutineState::Complete(Err(err)) => return Err(PumpError::Handshake(err)),
            ProxyCoroutineState::Yielded(ProxyYield::WantsWrite(bytes)) => {
                stream.write_all(&bytes).map_err(PumpError::Io)?;
                arg = None;
            }
            ProxyCoroutineState::Yielded(ProxyYield::WantsRead(n)) => {
                stream.read_exact(&mut buf[..n]).map_err(PumpError::Io)?;
                arg = Some(&buf[..n]);
            }
        }
    }
}

fn connect_socks5<S: Read + Write>(
    stream: &mut S,
    target: Socks5Address,
) -> Result<(), PumpError<Socks5ConnectError>> {
    run(stream, Socks5Connect::new(target, None))
}

fn connect_http<S: Read + Write>(
    stream: &mut S,
    host: &str,
    port: u16,
) -> Result<(), PumpError<HttpConnectError>> {
    run(stream, HttpConnect::new(host, port, None))
}

#[test]
fn drives_handshake_and_leaves_tunnel_bytes() {
    // method selection (no-auth) + success reply (IPv4) + one extra
    // byte that belongs to the tunnel and must NOT be consumed.
    let mut server = vec![0x05, 0x00];
    server.extend_from_slice(&[0x05, 0x00, 0x00, 0x01, 0, 0, 0, 0, 0, 0]);
    server.push(0xAB); // tunnel payload

    let mut fake = Fake {
        to_read: Cursor::new(server),
        written: Vec::new(),
    };

    connect_socks5(&mut fake, Socks5Address::Domain("example.com".into(), 993)).unwrap();

    // greeting was written
    assert_eq!(&fake.written[..3], [0x05, 0x01, 0x00]);

    // the tunnel byte is still unread on the stream
    let mut rest = Vec::new();
    fake.read_to_end(&mut rest).unwrap();
    assert_eq!(rest, [0xAB]);
}

#[test]
fn drives_connect_and_leaves_tunnel_bytes() {
    // a 200 response head, then a tunnel byte the byte-at-a-time reader
    // must leave untouched.
    let mut server = b"HTTP/1.1 200 Connection established\r\n\r\n".to_vec();
    server.push(0xAB);

    let mut fake = Fake {
        to_read: Cursor::new(server),
        written: Vec::new(),
    };

    connect_http(&mut fake, "imap.example.com", 993).unwrap();

    assert!(fake.written.starts_with(b"CONNECT imap.example.com:993"));

    let mut rest = Vec::new();
    fake.read_to_end(&mut rest).unwrap();
    assert_eq!(rest, [0xAB]);
}

#[test]
fn socks5_domain_reply_leaves_all_tunnel_bytes() {
    // the domain-typed bound address is consumed exactly
    let mut server = vec![0x05, 0x00, 0x05, 0x00, 0x00, 0x03, 0x02, b'h', b'i', 0x01, 0xBB];
    server.extend_from_slice(b"tunnel");
    let mut fake = Fake {
        to_read: Cursor::new(server),
        written: Vec::new(),
    };
    connect_socks5(&mut fake, Socks5Address::Ipv4([9, 9, 9, 9], 53)).unwrap();
    assert_eq!(
        fake.written,
        [0x05, 0x01, 0x00, 0x05, 0x01, 0x00, 0x01, 9, 9, 9, 9, 0x00, 0x35]
    );
    let mut rest = Vec::new();
    fake.read_to_end(&mut rest).unwrap();
    assert_eq!(rest, b"tunnel");
}

#[test]
fn http_refusal_surfaces_status() {
    let mut fake = Fake {
        to_read: Cursor::new(b"HTTP/1.1 407 Proxy Authentication Required\r\n\r\nrest".to_vec()),
        written: Vec::new(),
    };
    let err = connect_http(&mut fake, "h", 1).unwrap_err();
    assert!(matches!(err, PumpError::Handshake(HttpConnectError::Refused(407))));
    let mut rest = Vec::new();
    fake.read_to_end(&mut rest).unwrap();
    assert_eq!(rest, b"rest");
}
