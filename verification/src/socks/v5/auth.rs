//! SOCKS5 username/password sub-negotiation (RFC 1929).
use vstd::prelude::*;
use vstd::string::*;
use vstd::utf8::*;

use crate::render::{debug_quoted, plain_debug_char, str_debug};

use crate::bytes::append_bytes;
use crate::socks::v5::AUTH_VERSION;

verus! {

/// Failure building [`Socks5Credentials`].
#[derive(Clone, Debug, PartialEq, Eq, Structural)]
pub enum Socks5CredentialsError {
    /// The username exceeds the 255-byte field limit; carries its length.
    UsernameTooLong(usize),
    /// The password exceeds the 255-byte field limit; carries its length.
    PasswordTooLong(usize),
}

/// RFC 1929 username/password credentials.
///
/// Both fields fit the 255-byte limit RFC 1929 imposes on each. The
/// password is left out of [`Socks5Credentials::debug_string`].
pub struct Socks5Credentials {
    username: String,
    password: String,
}

impl View for Socks5Credentials {
    /// The username and the password.
    type V = (Seq<char>, Seq<char>);

    closed spec fn view(&self) -> (Seq<char>, Seq<char>) {
        (self.username@, self.password@)
    }
}

/// The RFC 1929 sub-negotiation request for these UTF-8 encoded fields:
/// `VER(0x01) | ULEN | UNAME | PLEN | PASSWD`.
pub open spec fn auth_request_bytes(username: Seq<u8>, password: Seq<u8>) -> Seq<u8> {
    seq![AUTH_VERSION, username.len() as u8] + username + seq![password.len() as u8] + password
}

/// The literal prefix of the credentials' debug rendering.
pub open spec fn debug_prefix() -> Seq<char> {
    "Socks5Credentials { username: "@
}

/// The literal suffix of the credentials' debug rendering, password redacted.
pub open spec fn debug_suffix() -> Seq<char> {
    ", password: \"***\" }"@
}

impl Clone for Socks5Credentials {
    fn clone(&self) -> (copy: Self)
        ensures
            copy@ == self@,
    {
        proof {
            use_type_invariant(self);
        }
        Socks5Credentials { username: self.username.clone(), password: self.password.clone() }
    }
}

impl Socks5Credentials {
    #[verifier::type_invariant]
    spec fn fields_fit(self) -> bool {
        &&& encode_utf8(self.username@).len() <= 255
        &&& encode_utf8(self.password@).len() <= 255
    }

    /// Builds credentials, validating both fields against the 255-byte limit
    /// RFC 1929 imposes on each (the username is checked first).
    pub fn new(username: &str, password: &str) -> (creds: Result<
        Socks5Credentials,
        Socks5CredentialsError,
    >)
        ensures
            username.spec_bytes().len() > 255 ==> creds == Err::<Socks5Credentials, _>(
                Socks5CredentialsError::UsernameTooLong(username.spec_bytes().len() as usize),
            ),
            username.spec_bytes().len() <= 255 && password.spec_bytes().len() > 255 ==> creds
                == Err::<Socks5Credentials, _>(
                Socks5CredentialsError::PasswordTooLong(password.spec_bytes().len() as usize),
            ),
            username.spec_bytes().len() <= 255 && password.spec_bytes().len() <= 255 ==> (creds matches Ok(c) && c@ == (
                username@,
                password@,
            )),
    {
        let ulen = username.as_bytes().len();
        let plen = password.as_bytes().len();
        if ulen > 255 {
            return Err(Socks5CredentialsError::UsernameTooLong(ulen));
        }
        if plen > 255 {
            return Err(Socks5CredentialsError::PasswordTooLong(plen));
        }
        Ok(Socks5Credentials { username: username.to_owned(), password: password.to_owned() })
    }

    /// Encodes the sub-negotiation request:
    /// `VER(0x01) | ULEN | UNAME | PLEN | PASSWD`.
    pub fn encode(&self) -> (out: Vec<u8>)
        ensures
            out@ == auth_request_bytes(encode_utf8(self@.0), encode_utf8(self@.1)),
            encode_utf8(self@.0).len() <= 255,
            encode_utf8(self@.1).len() <= 255,
    {
        proof {
            use_type_invariant(self);
        }
        let user = self.username.as_str().as_bytes();
        let pass = self.password.as_str().as_bytes();
        let mut out: Vec<u8> = Vec::new();
        out.push(AUTH_VERSION);
        out.push(user.len() as u8);
        append_bytes(&mut out, user);
        out.push(pass.len() as u8);
        append_bytes(&mut out, pass);
        out
    }

    /// Renders the credentials for debugging, with the password redacted:
    /// `Socks5Credentials { username: "<username>", password: "***" }`, the username
    /// escaped as `{:?}` shows a string.
    pub fn debug_string(&self) -> (text: String)
        ensures
            text@ == debug_prefix() + str_debug(self@.0) + debug_suffix(),
            (forall|i: int| 0 <= i < self@.0.len() ==> plain_debug_char(#[trigger] self@.0[i]))
                ==> text@ == debug_prefix() + seq!['"'] + self@.0 + seq!['"'] + debug_suffix(),
    {
        let mut text = String::from_str("Socks5Credentials { username: ");
        let username = debug_quoted(self.username.as_str());
        text.append(username.as_str());
        text.append(", password: \"***\" }");
        text
    }
}

/// The RFC 1929 request reads back: version `01`, the username's length,
/// the username, the password's length, the password, for fields of at most
/// 255 bytes each.
pub proof fn law_auth_request_reads_back(username: Seq<u8>, password: Seq<u8>)
    requires
        username.len() <= 255,
        password.len() <= 255,
    ensures
        ({
            let out = auth_request_bytes(username, password);
            let u = username.len() as int;
            &&& out.len() == 3 + u + password.len()
            &&& out[0] == 0x01
            &&& out[1] == u
            &&& out.subrange(2, 2 + u) == username
            &&& out[2 + u] == password.len()
            &&& out.subrange(3 + u, out.len() as int) == password
        }),
{
    let out = auth_request_bytes(username, password);
    let u = username.len() as int;
    assert(out.subrange(2, 2 + u) =~= username);
    assert(out.subrange(3 + u, out.len() as int) =~= password);
}

} // verus!
