//! I/O-free coroutine running the HTTP `CONNECT` tunnel handshake
//! (RFC 9110 §9.3.6).
//!
//! Sends `CONNECT host:port HTTP/1.1` in authority-form and treats any `2xx`
//! response as a live tunnel. The response head is read one byte at a time
//! up to the blank-line terminator, so no tunnel payload past the head is
//! ever consumed: the socket is left positioned exactly at the tunnel
//! start.
//!
//! Only tunnelling is implemented; plaintext HTTP forward proxying and
//! non-Basic proxy authentication are out of scope.
use base64::Engine;
use vstd::prelude::*;
use vstd::string::*;
use vstd::utf8::*;

use crate::render::{debug_quoted, plain_debug_char, str_debug};

use crate::coroutine::{
    arg_view, yields_output, ProxyCoroutine, ProxyCoroutineState, ProxyYield, StepOutput,
};
use crate::bytes::append_bytes;

verus! {

/// Cap on the proxy response head, to bound memory against a proxy that
/// never sends the blank-line terminator.
pub const MAX_HEAD_SIZE: usize = 65536;

/// Failure causes during the HTTP `CONNECT` handshake.
#[derive(Clone, Copy, Debug, PartialEq, Eq, Structural)]
pub enum HttpConnectError {
    /// The proxy refused the tunnel with a non-2xx status.
    Refused(u16),
    /// The proxy status line could not be parsed.
    MalformedStatus,
    /// The response head exceeded the internal cap without terminating.
    HeadTooLarge,
}

// ---------------------------------------------------------------------
// Request
// ---------------------------------------------------------------------

/// The decimal ASCII digits of `n`, without leading zeros.
pub open spec fn decimal(n: nat) -> Seq<u8>
    decreases n,
{
    if n < 10 {
        seq![(48 + n) as u8]
    } else {
        decimal(n / 10) + seq![(48 + n % 10) as u8]
    }
}

/// `host:port`, the authority-form request target.
pub open spec fn authority(host: Seq<u8>, port: u16) -> Seq<u8> {
    host + seq![58u8] + decimal(port as nat)
}

/// The `CONNECT` request head for `host:port`, with a
/// `Proxy-Authorization: Basic <token>` header when a token is given.
pub open spec fn connect_request(host: Seq<u8>, port: u16, basic_token: Option<Seq<u8>>) -> Seq<
    u8,
> {
    "CONNECT ".spec_bytes() + authority(host, port) + " HTTP/1.1\r\nHost: ".spec_bytes()
        + authority(host, port) + "\r\n".spec_bytes() + match basic_token {
        Some(token) => "Proxy-Authorization: Basic ".spec_bytes() + token + "\r\n".spec_bytes(),
        None => Seq::empty(),
    } + "\r\n".spec_bytes()
}

/// The text that Basic authentication encodes: `username:password`.
pub open spec fn basic_credentials(username: Seq<char>, password: Seq<char>) -> Seq<u8> {
    encode_utf8(username) + seq![58u8] + encode_utf8(password)
}

/// The character of the standard Base64 alphabet (RFC 4648 §4) for the
/// 6-bit value `v`: `A`-`Z`, `a`-`z`, `0`-`9`, `+`, `/`.
pub open spec fn base64_digit(v: int) -> u8 {
    if v < 26 {
        (65 + v) as u8
    } else if v < 52 {
        (97 + v - 26) as u8
    } else if v < 62 {
        (48 + v - 52) as u8
    } else if v == 62 {
        43u8
    } else {
        47u8
    }
}

/// The standard-alphabet, padded Base64 encoding of `input` (RFC 4648 §4),
/// without line breaks: every 3 bytes give 4 characters, and a final 1 or 2
/// bytes give 2 or 3 characters padded with `=` to 4.
pub open spec fn base64_standard(input: Seq<u8>) -> Seq<u8>
    decreases input.len(),
{
    if input.len() == 0 {
        Seq::empty()
    } else if input.len() == 1 {
        let a = input[0] as int;
        seq![base64_digit(a / 4), base64_digit((a % 4) * 16), 61u8, 61u8]
    } else if input.len() == 2 {
        let a = input[0] as int;
        let b = input[1] as int;
        seq![
            base64_digit(a / 4),
            base64_digit((a % 4) * 16 + b / 16),
            base64_digit((b % 16) * 4),
            61u8,
        ]
    } else {
        let a = input[0] as int;
        let b = input[1] as int;
        let c = input[2] as int;
        seq![
            base64_digit(a / 4),
            base64_digit((a % 4) * 16 + b / 16),
            base64_digit((b % 16) * 4 + c / 64),
            base64_digit(c % 64),
        ] + base64_standard(input.skip(3))
    }
}

/// Whether a padded Base64 encoding of `len` bytes fits in memory, that is
/// `4 * ceil(len / 3)` does not overflow.
pub open spec fn base64_fits(len: nat) -> bool {
    4 * ((len + 2) / 3) <= usize::MAX
}

/// Encodes `input` with `base64::Engine::encode` on the `STANDARD` engine.
///
/// Trusted: the result is the standard-alphabet, padded Base64 encoding of
/// the input (`STANDARD` is the RFC 4648 alphabet with the `PAD` config).
/// The engine panics when the encoded length overflows `usize`, which the
/// precondition excludes.
#[verifier::external_body]
fn base64_encode(input: &[u8]) -> (encoded: Vec<u8>)
    requires
        base64_fits(input@.len()),
    ensures
        encoded@ == base64_standard(input@),
{
    base64::engine::general_purpose::STANDARD.encode(input).into_bytes()
}

/// Appends the decimal digits of `n` to `out`.
fn append_decimal(out: &mut Vec<u8>, n: u16)
    ensures
        final(out)@ == old(out)@ + decimal(n as nat),
    decreases n,
{
    if n >= 10 {
        append_decimal(out, n / 10);
    }
    out.push(48 + (n % 10) as u8);
    proof {
        if n >= 10 {
            assert(decimal(n as nat) == decimal((n / 10) as nat) + seq![(48 + n % 10) as u8]);
        }
    }
}

/// Appends the UTF-8 bytes of `text` to `out`.
fn append_str(out: &mut Vec<u8>, text: &str)
    ensures
        final(out)@ == old(out)@ + text.spec_bytes(),
{
    append_bytes(out, text.as_bytes());
}

/// Appends `host:port` to `out`.
fn append_authority(out: &mut Vec<u8>, host: &str, port: u16)
    ensures
        final(out)@ == old(out)@ + authority(host.spec_bytes(), port),
{
    append_str(out, host);
    out.push(58);
    append_decimal(out, port);
    assert(final(out)@ =~= old(out)@ + authority(host.spec_bytes(), port));
}

// ---------------------------------------------------------------------
// Credentials
// ---------------------------------------------------------------------

/// `Proxy-Authorization: Basic` credentials (RFC 7617).
///
/// The password is left out of [`HttpCredentials::debug_string`]. Per RFC
/// 7617 the username must not contain a colon; that is the caller's
/// responsibility.
#[derive(Clone)]
pub struct HttpCredentials {
    username: String,
    password: String,
}

impl View for HttpCredentials {
    /// The username and the password.
    type V = (Seq<char>, Seq<char>);

    closed spec fn view(&self) -> (Seq<char>, Seq<char>) {
        (self.username@, self.password@)
    }
}

/// The literal prefix of the credentials' debug rendering.
pub open spec fn http_debug_prefix() -> Seq<char> {
    "HttpCredentials { username: "@
}

/// The literal suffix of the credentials' debug rendering, password redacted.
pub open spec fn http_debug_suffix() -> Seq<char> {
    ", password: \"***\" }"@
}

impl HttpCredentials {
    /// Builds Basic credentials from a username and password.
    pub fn new(username: &str, password: &str) -> (creds: HttpCredentials)
        ensures
            creds@ == (username@, password@),
    {
        HttpCredentials { username: username.to_owned(), password: password.to_owned() }
    }

    /// Whether the Base64 encoding of `username:password` fits in memory, as
    /// [`HttpConnect::new`] requires of its credentials.
    pub fn fits_base64(&self) -> (fits: bool)
        ensures
            fits == base64_fits(basic_credentials(self@.0, self@.1).len()),
    {
        let user = self.username.as_str().as_bytes();
        let pass = self.password.as_str().as_bytes();
        let len = user.len() as u128 + 1 + pass.len() as u128;
        assert(len == basic_credentials(self@.0, self@.1).len());
        (len + 2) / 3 * 4 <= usize::MAX as u128
    }

    /// The Base64 token of the `Proxy-Authorization: Basic` header value:
    /// the encoding of `username:password`.
    fn basic_token(&self) -> (token: Vec<u8>)
        requires
            base64_fits(basic_credentials(self@.0, self@.1).len()),
        ensures
            token@ == base64_standard(basic_credentials(self@.0, self@.1)),
    {
        let mut text: Vec<u8> = Vec::new();
        append_str(&mut text, self.username.as_str());
        text.push(58);
        append_str(&mut text, self.password.as_str());
        assert(text@ =~= basic_credentials(self@.0, self@.1));
        base64_encode(text.as_slice())
    }

    /// Renders the credentials for debugging, with the password redacted:
    /// `HttpCredentials { username: "<username>", password: "***" }`, the username
    /// escaped as `{:?}` shows a string.
    pub fn debug_string(&self) -> (text: String)
        ensures
            text@ == http_debug_prefix() + str_debug(self@.0) + http_debug_suffix(),
            (forall|i: int| 0 <= i < self@.0.len() ==> plain_debug_char(#[trigger] self@.0[i]))
                ==> text@ == http_debug_prefix() + seq!['"'] + self@.0 + seq!['"'] + http_debug_suffix(),
    {
        let mut text = String::from_str("HttpCredentials { username: ");
        let username = debug_quoted(self.username.as_str());
        text.append(username.as_str());
        text.append(", password: \"***\" }");
        text
    }
}

// ---------------------------------------------------------------------
// Status line
// ---------------------------------------------------------------------

/// Whether `c` is white space as `char::is_whitespace` defines it (the
/// Unicode `White_Space` property).
pub open spec fn is_white_space(c: char) -> bool {
    ||| c == ' '
    ||| '\u{9}' <= c <= '\u{d}'
    ||| c == '\u{85}'
    ||| c == '\u{a0}'
    ||| c == '\u{1680}'
    ||| '\u{2000}' <= c <= '\u{200a}'
    ||| c == '\u{2028}'
    ||| c == '\u{2029}'
    ||| c == '\u{202f}'
    ||| c == '\u{205f}'
    ||| c == '\u{3000}'
}

/// The text before the first line feed (the whole text if it has none).
/// A carriage return that ends the line is white space, so it never shows
/// in the line's words.
pub open spec fn first_line(text: Seq<char>) -> Seq<char>
    decreases text.len(),
{
    if text.len() == 0 || text[0] == '\n' {
        Seq::empty()
    } else {
        seq![text[0]] + first_line(text.drop_first())
    }
}

/// The maximal runs of non-white-space characters of `s`, in order, as
/// `str::split_whitespace` yields them: each non-white-space character
/// extends the current word when it follows another one, and starts a new
/// word otherwise.
pub open spec fn words(s: Seq<char>) -> Seq<Seq<char>>
    decreases s.len(),
{
    if s.len() == 0 {
        Seq::empty()
    } else {
        let prev = words(s.drop_last());
        if is_white_space(s.last()) {
            prev
        } else if s.len() >= 2 && !is_white_space(s[s.len() - 2]) && prev.len() > 0 {
            prev.update(prev.len() - 1, prev.last().push(s.last()))
        } else {
            prev.push(seq![s.last()])
        }
    }
}

/// Whether `c` is an ASCII decimal digit.
pub open spec fn is_digit(c: char) -> bool {
    '0' <= c <= '9'
}

/// The value of a string of decimal digits.
pub open spec fn digits_value(digits: Seq<char>) -> int
    decreases digits.len(),
{
    if digits.len() == 0 {
        0
    } else {
        digits_value(digits.drop_last()) * 10 + (digits.last() as int - '0' as int)
    }
}

/// `token` without its leading `+` sign, if it has one.
pub open spec fn unsigned_digits(token: Seq<char>) -> Seq<char> {
    if token.len() > 0 && token[0] == '+' {
        token.drop_first()
    } else {
        token
    }
}

/// Whether every character of `digits` is an ASCII decimal digit.
pub open spec fn all_digits(digits: Seq<char>) -> bool {
    forall|i: int| 0 <= i < digits.len() ==> is_digit(#[trigger] digits[i])
}

/// What `<u16 as FromStr>::from_str` gives for `token`: an optional `+`
/// sign, then at least one ASCII digit and nothing else, of value at most
/// `u16::MAX`.
pub open spec fn parse_u16(token: Seq<char>) -> Option<u16> {
    let digits = unsigned_digits(token);
    if digits.len() > 0 && all_digits(digits) && digits_value(digits) <= u16::MAX {
        Some(digits_value(digits) as u16)
    } else {
        None
    }
}

/// The status code of a response head read as text: the second word of
/// its first line, as a `u16`.
pub open spec fn status_code(text: Seq<char>) -> Option<u16> {
    let line_words = words(first_line(text));
    if line_words.len() >= 2 {
        parse_u16(line_words[1])
    } else {
        None
    }
}

/// `text` up to `end`, which is its first line feed or its end, is its
/// first line.
proof fn lemma_first_line(text: Seq<char>, end: int)
    requires
        0 <= end <= text.len(),
        forall|j: int| 0 <= j < end ==> text[j] != '\n',
        end == text.len() || text[end] == '\n',
    ensures
        first_line(text) == text.take(end),
    decreases end,
{
    if end == 0 {
        assert(text.take(0) =~= Seq::<char>::empty());
    } else {
        let rest = text.drop_first();
        assert forall|j: int| 0 <= j < end - 1 implies rest[j] != '\n' by {
            assert(rest[j] == text[j + 1]);
        }
        lemma_first_line(rest, end - 1);
        assert(seq![text[0]] + rest.take(end - 1) =~= text.take(end));
    }
}

/// Whether `c` is white space, as `char::is_whitespace` decides.
fn is_white_space_char(c: char) -> (ws: bool)
    ensures
        ws == is_white_space(c),
{
    c == ' ' || ('\u{9}' <= c && c <= '\u{d}') || c == '\u{85}' || c == '\u{a0}' || c
        == '\u{1680}' || ('\u{2000}' <= c && c <= '\u{200a}') || c == '\u{2028}' || c
        == '\u{2029}' || c == '\u{202f}' || c == '\u{205f}' || c == '\u{3000}'
}

/// Parses `token` as `<u16 as FromStr>::from_str` does.
fn parse_u16_chars(token: &[char]) -> (value: Option<u16>)
    ensures
        value == parse_u16(token@),
{
    let start: usize = if token.len() > 0 && token[0] == '+' {
        1
    } else {
        0
    };
    let ghost digits = unsigned_digits(token@);
    assert(digits =~= token@.skip(start as int));
    if start >= token.len() {
        return None;
    }
    let mut value: u32 = 0;
    let mut too_big = false;
    let mut j: usize = 0;
    let count = token.len() - start;
    while j < count
        invariant
            count == digits.len(),
            start + count == token@.len(),
            token@.len() == token.len(),
            digits == token@.skip(start as int),
            digits == unsigned_digits(token@),
            j <= count,
            forall|k: int| 0 <= k < j ==> is_digit(#[trigger] digits[k]),
            !too_big ==> value == digits_value(digits.take(j as int)) && value <= u16::MAX,
            too_big ==> digits_value(digits.take(j as int)) > u16::MAX,
        decreases count - j,
    {
        let c = token[start + j];
        assert(c == digits[j as int]);
        if !('0' <= c && c <= '9') {
            assert(!is_digit(digits[j as int]));
            return None;
        }
        assert(digits.take(j + 1).drop_last() =~= digits.take(j as int));
        if !too_big {
            let next = value * 10 + (c as u32 - '0' as u32);
            if next > 65535 {
                too_big = true;
            } else {
                value = next;
            }
        }
        j = j + 1;
    }
    assert(digits.take(count as int) =~= digits);
    if too_big {
        None
    } else {
        Some(value as u16)
    }
}

/// Parses the status code out of a response head decoded as text: the
/// second white-space separated word of its first line, as a `u16`.
pub fn status_code_from_text(text: &[char]) -> (code: Result<u16, HttpConnectError>)
    ensures
        code == match status_code(text@) {
            Some(c) => Ok::<u16, HttpConnectError>(c),
            None => Err(HttpConnectError::MalformedStatus),
        },
{
    let n = text.len();
    let mut i: usize = 0;
    let mut count: usize = 0;
    let mut in_word = false;
    let mut second: Vec<char> = Vec::new();
    while i < n && text[i] != '\n'
        invariant
            n == text@.len(),
            i <= n,
            count <= i,
            forall|j: int| 0 <= j < i ==> text@[j] != '\n',
            count == words(text@.take(i as int)).len(),
            count >= 2 ==> second@ == words(text@.take(i as int))[1],
            count < 2 ==> second@.len() == 0,
            in_word <==> (i > 0 && !is_white_space(text@[i - 1])),
            in_word ==> count >= 1,
        decreases n - i,
    {
        let c = text[i];
        let ghost prefix = text@.take(i + 1);
        assert(prefix.drop_last() =~= text@.take(i as int));
        assert(prefix.last() == c);
        assert(i > 0 ==> prefix[prefix.len() - 2] == text@[i - 1]);
        if is_white_space_char(c) {
            in_word = false;
        } else if !in_word {
            count = count + 1;
            in_word = true;
            if count == 2 {
                second.push(c);
                assert(second@ =~= seq![c]);
            }
        } else if count == 2 {
            second.push(c);
        }
        i = i + 1;
    }
    proof {
        lemma_first_line(text@, i as int);
    }
    if count < 2 {
        return Err(HttpConnectError::MalformedStatus);
    }
    match parse_u16_chars(second.as_slice()) {
        Some(code) => Ok(code),
        None => Err(HttpConnectError::MalformedStatus),
    }
}

// ---------------------------------------------------------------------
// Coroutine
// ---------------------------------------------------------------------

/// The text that `String::from_utf8_lossy` decodes `bytes` to, invalid
/// sequences replaced by U+FFFD.
pub uninterp spec fn utf8_lossy(bytes: Seq<u8>) -> Seq<char>;

/// Decodes `bytes` with `String::from_utf8_lossy` and hands back its
/// characters.
///
/// Trusted: the result is the named `utf8_lossy` of the bytes, and for
/// valid UTF-8 it is the plain decoding, as the std documentation states.
/// How invalid sequences are replaced is left to the name.
#[verifier::external_body]
fn decode_utf8_lossy(bytes: &[u8]) -> (text: Vec<char>)
    ensures
        text@ == utf8_lossy(bytes@),
        valid_utf8(bytes@) ==> text@ == decode_utf8(bytes@),
{
    String::from_utf8_lossy(bytes).chars().collect()
}

/// The response head read as text, as `String::from_utf8_lossy` gives it:
/// the plain UTF-8 decoding when the head is valid UTF-8.
pub open spec fn head_text(head: Seq<u8>) -> Seq<char> {
    if valid_utf8(head) {
        decode_utf8(head)
    } else {
        utf8_lossy(head)
    }
}

/// The blank line that ends a response head.
pub open spec fn head_terminator() -> Seq<u8> {
    seq![13u8, 10u8, 13u8, 10u8]
}

/// Whether `head` ends with the blank-line terminator `\r\n\r\n`.
pub open spec fn head_complete(head: Seq<u8>) -> bool {
    head.len() >= 4 && head.subrange(head.len() - 4, head.len() as int) == head_terminator()
}

/// How the handshake ends on the complete response head `head`: an open
/// tunnel on any 2xx status, refused with the status otherwise, malformed
/// when the status line has no status code.
pub open spec fn head_outcome(head: Seq<u8>) -> Result<(), HttpConnectError> {
    match status_code(head_text(head)) {
        None => Err(HttpConnectError::MalformedStatus),
        Some(code) => if 200 <= code < 300 {
            Ok(())
        } else {
            Err(HttpConnectError::Refused(code))
        },
    }
}

/// Handshake phase.
#[derive(Clone, Copy, Debug, PartialEq, Eq, Structural)]
pub enum HttpConnectState {
    /// Emit the `CONNECT` request.
    SendRequest,
    /// Read the response head, one byte at a time, up to `\r\n\r\n`.
    ReadHead,
    /// Handshake finished (successfully or not).
    Done,
}

/// I/O-free HTTP `CONNECT` handshake coroutine.
#[derive(Debug)]
pub struct HttpConnect {
    request: Vec<u8>,
    head: Vec<u8>,
    state: HttpConnectState,
}

/// The coroutine as the request still to send, the head read so far and
/// its phase.
pub struct HttpConnectView {
    /// The request bytes not yet handed out.
    pub request: Seq<u8>,
    /// The response head accumulated so far.
    pub head: Seq<u8>,
    /// Current phase.
    pub state: HttpConnectState,
}

impl View for HttpConnect {
    type V = HttpConnectView;

    closed spec fn view(&self) -> HttpConnectView {
        HttpConnectView { request: self.request@, head: self.head@, state: self.state }
    }
}

/// One resume of the handshake in `v`, handed `arg`: the coroutine after it
/// and what it yields or completes with. Every completion moves to `Done`.
pub open spec fn http_step(v: HttpConnectView, arg: Option<Seq<u8>>) -> (
    HttpConnectView,
    StepOutput<Result<(), HttpConnectError>>,
) {
    match v.state {
        HttpConnectState::SendRequest => (
            HttpConnectView {
                request: Seq::empty(),
                head: v.head,
                state: HttpConnectState::ReadHead,
            },
            StepOutput::Write(v.request),
        ),
        HttpConnectState::ReadHead => {
            let head = match arg {
                Some(data) => v.head + data,
                None => v.head,
            };
            if head_complete(head) {
                (
                    HttpConnectView { request: v.request, head, state: HttpConnectState::Done },
                    StepOutput::Finish(head_outcome(head)),
                )
            } else if head.len() > MAX_HEAD_SIZE {
                (
                    HttpConnectView { request: v.request, head, state: HttpConnectState::Done },
                    StepOutput::Finish(Err(HttpConnectError::HeadTooLarge)),
                )
            } else {
                (
                    HttpConnectView { request: v.request, head, state: HttpConnectState::ReadHead },
                    StepOutput::Read(1),
                )
            }
        },
        // never taken: `resume` requires a phase other than `Done`
        HttpConnectState::Done => (v, StepOutput::Finish(Err(HttpConnectError::MalformedStatus))),
    }
}

/// The Base64 token that `credentials`, if any, are sent as.
pub open spec fn basic_token_of(credentials: Option<HttpCredentials>) -> Option<Seq<u8>> {
    match credentials {
        Some(c) => Some(base64_standard(basic_credentials(c@.0, c@.1))),
        None => None,
    }
}

impl HttpConnect {
    /// Creates a coroutine tunnelling to `host:port`, sending
    /// `Proxy-Authorization: Basic` when `credentials` are provided.
    pub fn new(host: &str, port: u16, credentials: Option<HttpCredentials>) -> (connect: Self)
        requires
            credentials matches Some(c) ==> base64_fits(basic_credentials(c@.0, c@.1).len()),
        ensures
            connect@.request == connect_request(
                host.spec_bytes(),
                port,
                basic_token_of(credentials),
            ),
            connect@.head == Seq::<u8>::empty(),
            connect@.state == HttpConnectState::SendRequest,
    {
        let token = match &credentials {
            Some(c) => Some(c.basic_token()),
            None => None,
        };
        HttpConnect::with_basic_token(host, port, token)
    }

    /// Creates a coroutine tunnelling to `host:port`, sending
    /// `Proxy-Authorization: Basic <token>` when a Base64 token is given.
    pub fn with_basic_token(host: &str, port: u16, basic_token: Option<Vec<u8>>) -> (connect: Self)
        ensures
            connect@.request == connect_request(
                host.spec_bytes(),
                port,
                match basic_token {
                    Some(t) => Some(t@),
                    None => None,
                },
            ),
            connect@.head == Seq::<u8>::empty(),
            connect@.state == HttpConnectState::SendRequest,
    {
        let mut request: Vec<u8> = Vec::new();
        append_str(&mut request, "CONNECT ");
        append_authority(&mut request, host, port);
        append_str(&mut request, " HTTP/1.1\r\nHost: ");
        append_authority(&mut request, host, port);
        append_str(&mut request, "\r\n");
        let ghost before_auth = request@;
        match &basic_token {
            Some(token) => {
                append_str(&mut request, "Proxy-Authorization: Basic ");
                append_bytes(&mut request, token.as_slice());
                append_str(&mut request, "\r\n");
            },
            None => {},
        }
        append_str(&mut request, "\r\n");
        assert(request@ =~= connect_request(
            host.spec_bytes(),
            port,
            match basic_token {
                Some(t) => Some(t@),
                None => None,
            },
        ));
        HttpConnect { request, head: Vec::new(), state: HttpConnectState::SendRequest }
    }

    /// Parses the status code from the accumulated head's first line.
    fn status_code(&self) -> (code: Result<u16, HttpConnectError>)
        ensures
            code == match status_code(head_text(self@.head)) {
                Some(c) => Ok::<u16, HttpConnectError>(c),
                None => Err(HttpConnectError::MalformedStatus),
            },
    {
        let text = decode_utf8_lossy(self.head.as_slice());
        status_code_from_text(text.as_slice())
    }

    /// Whether the accumulated head ends with the blank-line terminator.
    fn head_is_complete(&self) -> (complete: bool)
        ensures
            complete == head_complete(self@.head),
    {
        let n = self.head.len();
        if n < 4 {
            return false;
        }
        let complete = self.head[n - 4] == 13 && self.head[n - 3] == 10 && self.head[n - 2] == 13
            && self.head[n - 1] == 10;
        assert(complete == (self@.head.subrange(n - 4, n as int) =~= head_terminator()));
        complete
    }
}

impl ProxyCoroutine for HttpConnect {
    type Yield = ProxyYield;

    type Return = Result<(), HttpConnectError>;

    open spec fn is_done(&self) -> bool {
        self@.state == HttpConnectState::Done
    }

    fn resume(&mut self, arg: Option<&[u8]>) -> (step: ProxyCoroutineState<
        ProxyYield,
        Result<(), HttpConnectError>,
    >)
        ensures
            final(self)@ == http_step(old(self)@, arg_view(arg)).0,
            yields_output(step, http_step(old(self)@, arg_view(arg)).1),
    {
        match self.state {
            HttpConnectState::SendRequest => {
                let mut request: Vec<u8> = Vec::new();
                core::mem::swap(&mut request, &mut self.request);
                self.state = HttpConnectState::ReadHead;
                ProxyCoroutineState::Yielded(ProxyYield::WantsWrite(request))
            },
            HttpConnectState::ReadHead => {
                if let Some(data) = arg {
                    append_bytes(&mut self.head, data);
                }
                if self.head_is_complete() {
                    self.state = HttpConnectState::Done;
                    let code = match self.status_code() {
                        Ok(code) => code,
                        Err(err) => return ProxyCoroutineState::Complete(Err(err)),
                    };
                    if 200 <= code && code < 300 {
                        return ProxyCoroutineState::Complete(Ok(()));
                    }
                    return ProxyCoroutineState::Complete(Err(HttpConnectError::Refused(code)));
                }
                if self.head.len() > MAX_HEAD_SIZE {
                    self.state = HttpConnectState::Done;
                    return ProxyCoroutineState::Complete(Err(HttpConnectError::HeadTooLarge));
                }
                // one byte at a time so the terminator is never overshot into
                // tunnel payload
                ProxyCoroutineState::Yielded(ProxyYield::WantsRead(1))
            },
            HttpConnectState::Done => {
                proof {
                    assert(false);
                }
                ProxyCoroutineState::Complete(Err(HttpConnectError::MalformedStatus))
            },
        }
    }
}

// ---------------------------------------------------------------------
// Laws
// ---------------------------------------------------------------------

/// Pumps the handshake from `v`, handing it `arg` first, as a caller that
/// owns the socket does: every write request is carried out, and every read
/// request of `n` bytes is served with the next `n` bytes of `input`. Stops
/// when the handshake completes, when `input` runs short of a read, or
/// after `fuel` resumes. Gives the coroutine after the last resume, the
/// bytes written, what is left of `input`, and the completion, if any.
pub open spec fn http_pump(v: HttpConnectView, arg: Option<Seq<u8>>, input: Seq<u8>, fuel: nat) -> (
    HttpConnectView,
    Seq<u8>,
    Seq<u8>,
    Option<Result<(), HttpConnectError>>,
)
    decreases fuel,
{
    if fuel == 0 {
        (v, Seq::empty(), input, None)
    } else {
        let (next, out) = http_step(v, arg);
        match out {
            StepOutput::Finish(r) => (next, Seq::empty(), input, Some(r)),
            StepOutput::Write(bytes) => {
                let (last, written, rest, done) = http_pump(next, None, input, (fuel - 1) as nat);
                (last, bytes + written, rest, done)
            },
            StepOutput::Read(n) => if n <= input.len() {
                http_pump(next, Some(input.take(n as int)), input.skip(n as int), (fuel - 1) as nat)
            } else {
                (next, Seq::empty(), input, None)
            },
        }
    }
}

/// Whether `head` is a whole response head: it ends with the blank-line
/// terminator, no shorter prefix of it does, and it fits the cap (every
/// proper prefix is at most `MAX_HEAD_SIZE` bytes long).
pub open spec fn whole_head(head: Seq<u8>) -> bool {
    &&& head_complete(head)
    &&& forall|k: int| 0 <= k < head.len() ==> !head_complete(#[trigger] head.take(k))
    &&& head.len() <= MAX_HEAD_SIZE + 1
}

/// Reading the rest of a whole head one byte at a time, from `k` bytes in.
proof fn lemma_head_read_exactly(
    request: Seq<u8>,
    head: Seq<u8>,
    tunnel: Seq<u8>,
    k: int,
)
    requires
        whole_head(head),
        0 <= k < head.len(),
    ensures
        http_pump(
            HttpConnectView { request, head: head.take(k), state: HttpConnectState::ReadHead },
            Some(seq![head[k]]),
            head.skip(k + 1) + tunnel,
            (head.len() - k) as nat,
        ) == (
            HttpConnectView { request, head, state: HttpConnectState::Done },
            Seq::<u8>::empty(),
            tunnel,
            Some(head_outcome(head)),
        ),
    decreases head.len() - k,
{
    let v = HttpConnectView { request, head: head.take(k), state: HttpConnectState::ReadHead };
    assert(head.take(k) + seq![head[k]] =~= head.take(k + 1));
    if k + 1 == head.len() {
        assert(head.take(k + 1) =~= head);
        assert(head.skip(k + 1) + tunnel =~= tunnel);
    } else {
        assert(!head_complete(head.take(k + 1)));
        let rest = head.skip(k + 1) + tunnel;
        assert(rest.take(1) =~= seq![head[k + 1]]);
        assert(rest.skip(1) =~= head.skip(k + 2) + tunnel);
        lemma_head_read_exactly(request, head, tunnel, k + 1);
    }
}

/// No over-read: pumping a fresh handshake against a proxy that sends a
/// whole response head and then tunnel bytes writes the request, reads
/// exactly the head, and completes as the head's status decides, leaving
/// every tunnel byte unread.
pub proof fn law_http_reads_exactly_the_head(
    v: HttpConnectView,
    head: Seq<u8>,
    tunnel: Seq<u8>,
)
    requires
        v.state == HttpConnectState::SendRequest,
        v.head == Seq::<u8>::empty(),
        whole_head(head),
    ensures
        http_pump(v, None, head + tunnel, (head.len() + 2) as nat) == (
            HttpConnectView { request: Seq::<u8>::empty(), head, state: HttpConnectState::Done },
            v.request,
            tunnel,
            Some(head_outcome(head)),
        ),
{
    let input = head + tunnel;
    let reading = HttpConnectView {
        request: Seq::empty(),
        head: Seq::empty(),
        state: HttpConnectState::ReadHead,
    };
    assert(head.take(0) =~= Seq::<u8>::empty());
    assert(!head_complete(Seq::<u8>::empty()));
    assert(input.take(1) =~= seq![head[0]]);
    assert(input.skip(1) =~= head.skip(1) + tunnel);
    lemma_head_read_exactly(Seq::empty(), head, tunnel, 0);
    assert(http_pump(reading, None, input, (head.len() + 1) as nat) == http_pump(
        reading,
        Some(seq![head[0]]),
        head.skip(1) + tunnel,
        head.len() as nat,
    ));
    assert(v.request + Seq::<u8>::empty() =~= v.request);
}

/// Whether no prefix of `data` of up to `MAX_HEAD_SIZE + 1` bytes ends with
/// the blank-line terminator.
pub open spec fn unterminated_past_cap(data: Seq<u8>) -> bool {
    &&& data.len() > MAX_HEAD_SIZE
    &&& forall|k: int| 0 <= k <= MAX_HEAD_SIZE + 1 ==> !head_complete(#[trigger] data.take(k))
}

/// Reading an unterminated head one byte at a time, from `k` bytes in.
proof fn lemma_overlong_head(request: Seq<u8>, data: Seq<u8>, k: int)
    requires
        unterminated_past_cap(data),
        0 <= k <= MAX_HEAD_SIZE,
    ensures
        http_pump(
            HttpConnectView { request, head: data.take(k), state: HttpConnectState::ReadHead },
            Some(seq![data[k]]),
            data.skip(k + 1),
            (MAX_HEAD_SIZE + 1 - k) as nat,
        ) == (
            HttpConnectView {
                request,
                head: data.take(MAX_HEAD_SIZE + 1),
                state: HttpConnectState::Done,
            },
            Seq::<u8>::empty(),
            data.skip(MAX_HEAD_SIZE + 1),
            Some(Err::<(), HttpConnectError>(HttpConnectError::HeadTooLarge)),
        ),
    decreases MAX_HEAD_SIZE - k,
{
    assert(data.take(k) + seq![data[k]] =~= data.take(k + 1));
    assert(!head_complete(data.take(k + 1)));
    if k < MAX_HEAD_SIZE {
        let rest = data.skip(k + 1);
        assert(rest.take(1) =~= seq![data[k + 1]]);
        assert(rest.skip(1) =~= data.skip(k + 2));
        lemma_overlong_head(request, data, k + 1);
    }
}

/// Bounded head: pumping a fresh handshake against a proxy whose first
/// `MAX_HEAD_SIZE + 1` bytes hold no blank-line terminator fails with
/// `HeadTooLarge` once it has read exactly those bytes, and no more.
pub proof fn law_http_head_is_bounded(v: HttpConnectView, data: Seq<u8>)
    requires
        v.state == HttpConnectState::SendRequest,
        v.head == Seq::<u8>::empty(),
        unterminated_past_cap(data),
    ensures
        http_pump(v, None, data, (MAX_HEAD_SIZE + 3) as nat) == (
            HttpConnectView {
                request: Seq::<u8>::empty(),
                head: data.take(MAX_HEAD_SIZE + 1),
                state: HttpConnectState::Done,
            },
            v.request,
            data.skip(MAX_HEAD_SIZE + 1),
            Some(Err::<(), HttpConnectError>(HttpConnectError::HeadTooLarge)),
        ),
{
    let reading = HttpConnectView {
        request: Seq::empty(),
        head: Seq::empty(),
        state: HttpConnectState::ReadHead,
    };
    assert(data.take(0) =~= Seq::<u8>::empty());
    assert(data.take(1) =~= seq![data[0]]);
    lemma_overlong_head(Seq::empty(), data, 0);
    assert(http_pump(reading, None, data, (MAX_HEAD_SIZE + 2) as nat) == http_pump(
        reading,
        Some(seq![data[0]]),
        data.skip(1),
        (MAX_HEAD_SIZE + 1) as nat,
    ));
    assert(v.request + Seq::<u8>::empty() =~= v.request);
}

/// A resume completes exactly when it moves the handshake to `Done`, so a
/// completed handshake is never resumed again.
pub proof fn law_http_completion_is_final(v: HttpConnectView, arg: Option<Seq<u8>>)
    requires
        v.state != HttpConnectState::Done,
    ensures
        http_step(v, arg).1 is Finish <==> http_step(v, arg).0.state == HttpConnectState::Done,
{
}

/// The head is read one byte at a time: every read request is for exactly
/// one byte, so the terminator is never overshot into tunnel payload.
pub proof fn law_http_reads_one_byte(v: HttpConnectView, arg: Option<Seq<u8>>)
    requires
        v.state != HttpConnectState::Done,
    ensures
        http_step(v, arg).1 matches StepOutput::Read(n) ==> n == 1,
{
}

/// The 6-bit value of a character of the standard Base64 alphabet.
pub open spec fn base64_value(digit: u8) -> int {
    if 65 <= digit <= 90 {
        digit - 65
    } else if 97 <= digit <= 122 {
        digit - 71
    } else if 48 <= digit <= 57 {
        digit + 4
    } else if digit == 43 {
        62
    } else {
        63
    }
}

/// Decodes standard, padded Base64 text (RFC 4648 §4): every 4 characters
/// give 3 bytes, and a final group ending in `=` or `==` gives 2 or 1.
pub open spec fn base64_decode(text: Seq<u8>) -> Seq<u8>
    decreases text.len(),
{
    if text.len() < 4 {
        Seq::empty()
    } else {
        let v0 = base64_value(text[0]);
        let v1 = base64_value(text[1]);
        let v2 = base64_value(text[2]);
        let v3 = base64_value(text[3]);
        let a = (v0 * 4 + v1 / 16) as u8;
        let b = ((v1 % 16) * 16 + v2 / 4) as u8;
        let c = ((v2 % 4) * 64 + v3) as u8;
        if text[2] == 61 {
            seq![a]
        } else if text[3] == 61 {
            seq![a, b]
        } else {
            seq![a, b, c] + base64_decode(text.skip(4))
        }
    }
}

/// A Base64 digit reads back as its value, and is never the padding `=`.
proof fn lemma_base64_digit(v: int)
    requires
        0 <= v < 64,
    ensures
        base64_value(base64_digit(v)) == v,
        base64_digit(v) != 61,
{
}

/// The 6-bit groups of three bytes put back together give the bytes.
proof fn lemma_base64_groups(a: int, b: int, c: int)
    requires
        0 <= a < 256,
        0 <= b < 256,
        0 <= c < 256,
    ensures
        0 <= a / 4 < 64,
        0 <= (a % 4) * 16 + b / 16 < 64,
        0 <= (b % 16) * 4 + c / 64 < 64,
        0 <= c % 64 < 64,
        (a / 4) * 4 + ((a % 4) * 16 + b / 16) / 16 == a,
        (((a % 4) * 16 + b / 16) % 16) * 16 + ((b % 16) * 4 + c / 64) / 4 == b,
        (((b % 16) * 4 + c / 64) % 4) * 64 + c % 64 == c,
{
}

/// Decoding the standard Base64 encoding of `input` gives `input` back.
pub proof fn law_base64_round_trip(input: Seq<u8>)
    ensures
        base64_decode(base64_standard(input)) == input,
    decreases input.len(),
{
    if input.len() == 0 {
    } else if input.len() == 1 {
        let a = input[0] as int;
        lemma_base64_groups(a, 0, 0);
        lemma_base64_digit(a / 4);
        lemma_base64_digit((a % 4) * 16);
        assert(base64_decode(base64_standard(input)) =~= input);
    } else if input.len() == 2 {
        let a = input[0] as int;
        let b = input[1] as int;
        lemma_base64_groups(a, b, 0);
        lemma_base64_digit(a / 4);
        lemma_base64_digit((a % 4) * 16 + b / 16);
        lemma_base64_digit((b % 16) * 4);
        assert(base64_decode(base64_standard(input)) =~= input);
    } else {
        let a = input[0] as int;
        let b = input[1] as int;
        let c = input[2] as int;
        lemma_base64_groups(a, b, c);
        lemma_base64_digit(a / 4);
        lemma_base64_digit((a % 4) * 16 + b / 16);
        lemma_base64_digit((b % 16) * 4 + c / 64);
        lemma_base64_digit(c % 64);
        let text = base64_standard(input);
        let group = seq![
            base64_digit(a / 4),
            base64_digit((a % 4) * 16 + b / 16),
            base64_digit((b % 16) * 4 + c / 64),
            base64_digit(c % 64),
        ];
        assert(text == group + base64_standard(input.skip(3)));
        assert(text.skip(4) =~= base64_standard(input.skip(3)));
        law_base64_round_trip(input.skip(3));
        assert(input =~= seq![input[0], input[1], input[2]] + input.skip(3));
    }
}

/// The UTF-8 encoding of a character other than `:` holds no `:` byte:
/// ASCII encodes as itself and every byte of a longer encoding has its high
/// bit set.
proof fn lemma_scalar_no_colon(c: char)
    requires
        c != ':',
    ensures
        forall|i: int| 0 <= i < encode_scalar(c as u32).len() ==> #[trigger] encode_scalar(c as u32)[i] != 58,
{
    let v = c as u32;
    vstd::utf8::char_is_scalar(c);
    if has_width_1_encoding(v) {
        assert(v != 58);
        assert(v <= 0x7f && v != 58 ==> (v & 0x7F) as u8 != 58) by (bit_vector);
    } else {
        assert(forall|x: u32| #![auto] (0xC0 | (x & 0x1F) as u8) >= 0x80) by (bit_vector);
        assert(forall|x: u32| #![auto] (0xE0 | (x & 0x0F) as u8) >= 0x80) by (bit_vector);
        assert(forall|x: u32| #![auto] (0xF0 | (x & 0x7) as u8) >= 0x80) by (bit_vector);
        assert(forall|x: u32| #![auto] (0x80 | (x & 0x3F) as u8) >= 0x80) by (bit_vector);
        assert(leading_byte_width_2(v) >= 0x80);
        assert(leading_byte_width_3(v) >= 0x80);
        assert(leading_byte_width_4(v) >= 0x80);
        assert(last_continuation_byte(v) >= 0x80);
        assert(second_last_continuation_byte(v) >= 0x80);
        assert(third_last_continuation_byte(v) >= 0x80);
    }
}

/// The UTF-8 encoding of a text without `:` holds no `:` byte.
proof fn lemma_utf8_no_colon(text: Seq<char>)
    requires
        !text.contains(':'),
    ensures
        forall|i: int| 0 <= i < encode_utf8(text).len() ==> #[trigger] encode_utf8(text)[i] != 58,
    decreases text.len(),
{
    if text.len() > 0 {
        assert(text[0] != ':');
        lemma_scalar_no_colon(text[0]);
        let rest = text.drop_first();
        assert forall|i: int| 0 <= i < rest.len() implies rest[i] != ':' by {
            assert(rest[i] == text[i + 1]);
        }
        lemma_utf8_no_colon(rest);
        let head = encode_scalar(text[0] as u32);
        assert forall|i: int| 0 <= i < encode_utf8(text).len() implies #[trigger] encode_utf8(text)[i] != 58 by {
            if i >= head.len() {
                assert(encode_utf8(text)[i] == encode_utf8(rest)[i - head.len()]);
            }
        }
    }
}

/// Basic credentials read back: for a username without `:` (as RFC 7617
/// asks), decoding the `Proxy-Authorization: Basic` token and splitting it
/// at its first `:` gives back exactly the username and the password.
pub proof fn law_basic_token_round_trip(username: Seq<char>, password: Seq<char>)
    requires
        !username.contains(':'),
    ensures
        ({
            let text = base64_decode(base64_standard(basic_credentials(username, password)));
            let k = encode_utf8(username).len() as int;
            &&& k < text.len() && text[k] == 58
            &&& forall|i: int| 0 <= i < k ==> text[i] != 58
            &&& decode_utf8(text.take(k)) == username
            &&& decode_utf8(text.skip(k + 1)) == password
        }),
{
    let text = basic_credentials(username, password);
    let k = encode_utf8(username).len() as int;
    law_base64_round_trip(text);
    lemma_utf8_no_colon(username);
    assert(text.take(k) =~= encode_utf8(username));
    assert(text.skip(k + 1) =~= encode_utf8(password));
    vstd::utf8::encode_utf8_decode_utf8(username);
    vstd::utf8::encode_utf8_decode_utf8(password);
}

/// A complete head decides the handshake by its status code: the tunnel is
/// open exactly on a 2xx code, every other code is refused with that code,
/// and a head without a status code is malformed.
pub proof fn law_http_status_decides(v: HttpConnectView, data: Seq<u8>)
    requires
        v.state == HttpConnectState::ReadHead,
        head_complete(v.head + data),
    ensures
        ({
            let (next, out) = http_step(v, Some(data));
            &&& next.state == HttpConnectState::Done
            &&& match status_code(head_text(v.head + data)) {
                Some(code) => (out == StepOutput::Finish(Ok::<(), HttpConnectError>(()))
                    <==> 200 <= code < 300) && (!(200 <= code < 300) ==> out
                    == StepOutput::Finish(
                    Err::<(), HttpConnectError>(HttpConnectError::Refused(code)),
                )),
                None => out == StepOutput::Finish(
                    Err::<(), HttpConnectError>(HttpConnectError::MalformedStatus),
                ),
            }
        }),
{
}

/// The text of the ASCII bytes `bytes`.
pub open spec fn ascii_text(bytes: Seq<u8>) -> Seq<char> {
    bytes.map_values(|b: u8| b as char)
}

/// The decimal digits of a port read back as the port: parsing them as a
/// status code would (`u16::from_str`) gives the number back.
pub proof fn law_decimal_reads_back(n: u16)
    ensures
        parse_u16(ascii_text(decimal(n as nat))) == Some(n),
{
    lemma_decimal_value(n as nat);
    let text = ascii_text(decimal(n as nat));
    assert(text.len() > 0 && text[0] != '+');
    assert(unsigned_digits(text) == text);
}

/// The decimal digits of `n` are ASCII digits of value `n`.
proof fn lemma_decimal_value(n: nat)
    ensures
        decimal(n).len() > 0,
        all_digits(ascii_text(decimal(n))),
        digits_value(ascii_text(decimal(n))) == n,
    decreases n,
{
    let text = ascii_text(decimal(n));
    if n < 10 {
        assert(text =~= seq![(48 + n) as u8 as char]);
        assert(text.drop_last() =~= Seq::<char>::empty());
        assert(text.last() as int == 48 + n);
        assert(digits_value(text.drop_last()) == 0);
        assert(digits_value(text) == digits_value(text.drop_last()) * 10 + (text.last() as int - '0' as int));
    } else {
        lemma_decimal_value(n / 10);
        let prev = ascii_text(decimal(n / 10));
        assert(text.drop_last() =~= prev);
        assert(text.last() == (48 + n % 10) as u8 as char);
        assert(text.last() as int == 48 + n % 10);
        assert(digits_value(text) == digits_value(prev) * 10 + (text.last() as int - '0' as int));
        assert(n == (n / 10) * 10 + n % 10);
        assert forall|i: int| 0 <= i < text.len() implies is_digit(#[trigger] text[i]) by {
            if i < text.len() - 1 {
                assert(text[i] == prev[i]);
            }
        }
    }
}

/// A run of non-white-space characters after white space (or at the start)
/// is one more word.
proof fn lemma_words_push_word(p: Seq<char>, t: Seq<char>)
    requires
        p.len() == 0 || is_white_space(p.last()),
        t.len() > 0,
        forall|i: int| 0 <= i < t.len() ==> !is_white_space(#[trigger] t[i]),
    ensures
        words(p + t) == words(p).push(t),
    decreases t.len(),
{
    let s = p + t;
    assert(s.drop_last() =~= p + t.drop_last());
    assert(s.last() == t.last());
    if t.len() == 1 {
        assert(t.drop_last() =~= Seq::<char>::empty());
        assert(p + t.drop_last() =~= p);
        assert(s.len() >= 2 ==> s[s.len() - 2] == p.last());
        assert(seq![t.last()] =~= t);
    } else {
        let t1 = t.drop_last();
        lemma_words_push_word(p, t1);
        assert(s[s.len() - 2] == t1.last());
        assert(t1.push(t.last()) =~= t);
        assert(words(p).push(t1).update(words(p).len() as int, t) =~= words(p).push(t));
    }
}

/// White space after the words adds none.
proof fn lemma_words_space(p: Seq<char>, c: char)
    requires
        is_white_space(c),
    ensures
        words(p.push(c)) == words(p),
{
    assert(p.push(c).drop_last() =~= p);
}

/// Text appended after white space never changes the words before it.
proof fn lemma_words_keep_prefix(p: Seq<char>, q: Seq<char>)
    requires
        p.len() == 0 || is_white_space(p.last()),
    ensures
        words(p + q).len() >= words(p).len(),
        words(p + q).take(words(p).len() as int) == words(p),
        words(p + q).len() == words(p).len() ==> q.len() == 0 || is_white_space((p + q).last()),
    decreases q.len(),
{
    let s = p + q;
    if q.len() == 0 {
        assert(s =~= p);
        assert(words(p).take(words(p).len() as int) =~= words(p));
    } else {
        let q1 = q.drop_last();
        lemma_words_keep_prefix(p, q1);
        assert(s.drop_last() =~= p + q1);
        let prev = words(p + q1);
        let k = words(p).len() as int;
        if is_white_space(s.last()) {
        } else if s.len() >= 2 && !is_white_space(s[s.len() - 2]) && prev.len() > 0 {
            if q1.len() > 0 {
                assert((p + q1).last() == s[s.len() - 2]);
            } else {
                assert(s[s.len() - 2] == p.last());
            }
            assert(prev.len() > k);
            assert(words(s).take(k) =~= prev.take(k));
        } else {
            assert(words(s).take(k) =~= prev.take(k));
        }
    }
}

/// A status line `<version> <code> <reason>\r\n` (the version a single word,
/// the code in decimal digits, the reason without line feeds) gives its
/// code, whatever follows the line.
pub proof fn law_status_line_code(
    version: Seq<char>,
    code: u16,
    reason: Seq<char>,
    rest: Seq<char>,
)
    requires
        version.len() > 0,
        forall|i: int| 0 <= i < version.len() ==> !is_white_space(#[trigger] version[i]),
        forall|i: int| 0 <= i < reason.len() ==> #[trigger] reason[i] != '\n',
    ensures
        status_code(
            version + seq![' '] + ascii_text(decimal(code as nat)) + seq![' '] + reason + seq![
                '\r',
                '\n',
            ] + rest,
        ) == Some(code),
{
    let digits = ascii_text(decimal(code as nat));
    lemma_decimal_value(code as nat);
    assert forall|i: int| 0 <= i < digits.len() implies !is_white_space(#[trigger] digits[i]) by {
        assert(is_digit(digits[i]));
    }
    let empty = Seq::<char>::empty();
    lemma_words_push_word(empty, version);
    assert(empty + version =~= version);
    lemma_words_space(version, ' ');
    let p1 = version.push(' ');
    lemma_words_push_word(p1, digits);
    let p2 = p1 + digits;
    lemma_words_space(p2, ' ');
    let p3 = p2.push(' ');
    let line = p3 + reason + seq!['\r'];
    lemma_words_keep_prefix(p3, reason + seq!['\r']);
    assert(p3 + (reason + seq!['\r']) =~= line);
    assert(words(p3) =~= seq![version, digits]);
    assert(words(line).take(2) =~= words(p3));
    assert(words(line)[1] == digits) by {
        assert(words(line).take(2)[1] == words(line)[1]);
    }
    let text = version + seq![' '] + digits + seq![' '] + reason + seq!['\r', '\n'] + rest;
    assert(text =~= line + seq!['\n'] + rest);
    assert forall|j: int| 0 <= j < line.len() implies text[j] != '\n' by {
        assert(text[j] == line[j]);
        if j < version.len() {
            assert(line[j] == version[j]);
        } else if j >= p3.len() && j < p3.len() + reason.len() {
            assert(line[j] == reason[j - p3.len()]);
        } else if j >= p1.len() && j < p2.len() {
            assert(line[j] == digits[j - p1.len()]);
            assert(is_digit(digits[j - p1.len()]));
        }
    }
    lemma_first_line(text, line.len() as int);
    assert(text.take(line.len() as int) =~= line);
    law_decimal_reads_back(code);
}

/// A head is complete exactly when its last four bytes are `\r\n\r\n`.
pub proof fn law_head_complete(head: Seq<u8>)
    ensures
        head_complete(head) <==> head.len() >= 4 && head[head.len() - 4] == 13 && head[head.len()
            - 3] == 10 && head[head.len() - 2] == 13 && head[head.len() - 1] == 10,
{
    if head.len() >= 4 && head[head.len() - 4] == 13 && head[head.len() - 3] == 10
        && head[head.len() - 2] == 13 && head[head.len() - 1] == 10 {
        assert(head.subrange(head.len() - 4, head.len() as int) =~= head_terminator());
    }
    if head_complete(head) {
        let tail = head.subrange(head.len() - 4, head.len() as int);
        assert(tail[0] == head[head.len() - 4]);
        assert(tail[1] == head[head.len() - 3]);
        assert(tail[2] == head[head.len() - 2]);
        assert(tail[3] == head[head.len() - 1]);
    }
}

/// The request starts with `CONNECT `, the host, `:` and the port in
/// decimal, and ends with the blank line `\r\n\r\n`.
pub proof fn law_http_request_shape(host: Seq<u8>, port: u16, basic_token: Option<Seq<u8>>)
    ensures
        ({
            let r = connect_request(host, port, basic_token);
            let h = host.len() as int;
            let d = decimal(port as nat).len() as int;
            &&& r.take(8) == seq![67u8, 79u8, 78u8, 78u8, 69u8, 67u8, 84u8, 32u8]
            &&& r.subrange(8, 8 + h) == host
            &&& r[8 + h] == 58
            &&& r.subrange(9 + h, 9 + h + d) == decimal(port as nat)
            &&& r.len() >= 4 && r.subrange(r.len() - 4, r.len() as int) == seq![
                13u8,
                10u8,
                13u8,
                10u8,
            ]
        }),
{
    reveal_strlit("CONNECT ");
    reveal_strlit("\r\n");
    vstd::string::is_ascii_spec_bytes("CONNECT ");
    vstd::string::is_ascii_spec_bytes("\r\n");
    let r = connect_request(host, port, basic_token);
    let h = host.len() as int;
    let d = decimal(port as nat).len() as int;
    assert("CONNECT ".spec_bytes() =~= seq![67u8, 79u8, 78u8, 78u8, 69u8, 67u8, 84u8, 32u8]);
    assert("\r\n".spec_bytes() =~= seq![13u8, 10u8]);
    assert(r.take(8) =~= seq![67u8, 79u8, 78u8, 78u8, 69u8, 67u8, 84u8, 32u8]);
    assert(r.subrange(8, 8 + h) =~= host);
    assert(r.subrange(9 + h, 9 + h + d) =~= decimal(port as nat));
    match basic_token {
        Some(t) => {
            let with_line = "CONNECT ".spec_bytes() + authority(host, port)
                + " HTTP/1.1\r\nHost: ".spec_bytes() + authority(host, port) + "\r\n".spec_bytes()
                + ("Proxy-Authorization: Basic ".spec_bytes() + t + "\r\n".spec_bytes());
            assert(r =~= with_line + "\r\n".spec_bytes());
            assert(r.subrange(r.len() - 4, r.len() as int) =~= seq![13u8, 10u8, 13u8, 10u8]);
        },
        None => {
            let head = "CONNECT ".spec_bytes() + authority(host, port)
                + " HTTP/1.1\r\nHost: ".spec_bytes() + authority(host, port) + "\r\n".spec_bytes();
            assert(r =~= head + Seq::<u8>::empty() + "\r\n".spec_bytes());
            assert(r.subrange(r.len() - 4, r.len() as int) =~= seq![13u8, 10u8, 13u8, 10u8]);
        },
    }
}

} // verus!
