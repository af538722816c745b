//! I/O-free coroutine running the SOCKS5 client `CONNECT` handshake
//! (RFC 1928 method negotiation + request/reply, RFC 1929 auth).
//!
//! On success the tunnel to the target is open and the socket is
//! positioned exactly at its first byte: the coroutine reads each
//! length-framed message with an exact byte count, so nothing past the
//! reply is ever consumed.
use vstd::prelude::*;
use vstd::utf8::*;

use crate::coroutine::{
    arg_view, yields_output, ProxyCoroutine, ProxyCoroutineState, ProxyYield, StepOutput,
};
use crate::socks::v5::address::{address_bytes, Socks5Address};
use crate::socks::v5::auth::{auth_request_bytes, Socks5Credentials};
use crate::socks::v5::message::Socks5Reply;
use crate::socks::v5::{
    ATYP_DOMAIN, ATYP_IPV4, ATYP_IPV6, AUTH_VERSION, CMD_CONNECT, METHOD_NO_ACCEPTABLE,
    METHOD_NO_AUTH, METHOD_USER_PASS, RSV, VERSION,
};

verus! {

/// Failure causes during the SOCKS5 `CONNECT` handshake.
#[derive(Clone, Copy, Debug, PartialEq, Eq, Structural)]
pub enum Socks5ConnectError {
    /// The proxy replied with a SOCKS version other than `0x05`.
    UnexpectedVersion(u8),
    /// The proxy accepted none of the offered authentication methods.
    NoAcceptableAuthMethod,
    /// The proxy selected an authentication method the client did not
    /// offer or does not support.
    UnsupportedAuthMethod(u8),
    /// The proxy asked for username/password auth but no credentials were
    /// configured.
    AuthRequired,
    /// The auth sub-negotiation carried a version other than `0x01`.
    UnexpectedAuthVersion(u8),
    /// The proxy rejected the username/password credentials.
    AuthRejected,
    /// The proxy refused the `CONNECT` with a known reply code.
    Reply(Socks5Reply),
    /// The proxy replied with a reply code outside the RFC 1928 range.
    UnknownReply(u8),
    /// The proxy reply used an address type the client cannot parse.
    UnknownAddressType(u8),
    /// A message from the proxy was shorter or longer than its fixed
    /// framing requires (a misbehaving pump or proxy).
    Malformed,
}

/// Handshake phase: which message the coroutine expects next.
#[derive(Clone, Copy, Debug, PartialEq, Eq, Structural)]
pub enum Socks5State {
    /// Emit the method-negotiation greeting.
    Greet,
    /// Read the 2-byte method selection.
    Method,
    /// Read the 2-byte auth status.
    AuthStatus,
    /// Read the 4-byte reply head (`VER REP RSV ATYP`).
    ReplyHead,
    /// Read the 1-byte domain length of a domain-typed bound address.
    ReplyDomainLen,
    /// Read the remaining bytes of `BND.ADDR` + `BND.PORT`.
    ReplyTail(usize),
    /// Handshake finished (successfully or not).
    Done,
}

/// I/O-free SOCKS5 `CONNECT` handshake coroutine.
pub struct Socks5Connect {
    target: Socks5Address,
    credentials: Option<Socks5Credentials>,
    state: Socks5State,
}

/// The coroutine as the messages it sends and the phase it is in.
pub struct Socks5ConnectView {
    /// Current phase.
    pub state: Socks5State,
    /// The RFC 1929 sub-negotiation request, when credentials are present.
    pub auth: Option<Seq<u8>>,
    /// The `CONNECT` request.
    pub request: Seq<u8>,
}

/// `VER | NMETHODS | METHODS`: no-auth, plus username/password when
/// credentials are available.
pub open spec fn greeting_bytes(with_auth: bool) -> Seq<u8> {
    if with_auth {
        seq![VERSION, 2, METHOD_NO_AUTH, METHOD_USER_PASS]
    } else {
        seq![VERSION, 1, METHOD_NO_AUTH]
    }
}

/// `VER | CMD | RSV | ATYP | DST.ADDR | DST.PORT` for `target`.
pub open spec fn connect_request_bytes(target: Socks5Address) -> Seq<u8> {
    seq![VERSION, CMD_CONNECT, RSV] + address_bytes(target)
}

/// The RFC 1929 request that `credentials`, if any, are sent as.
pub open spec fn auth_message(credentials: Option<Socks5Credentials>) -> Option<Seq<u8>> {
    match credentials {
        Some(c) => Some(auth_request_bytes(encode_utf8(c@.0), encode_utf8(c@.1))),
        None => None,
    }
}

/// The proxy's method selection `reply`: `Ok(true)` when the
/// username/password sub-negotiation follows, `Ok(false)` when no
/// authentication is needed. Username/password is accepted only when it was
/// offered, that is when credentials are present.
pub open spec fn method_selection(reply: Seq<u8>, offered_auth: bool) -> Result<
    bool,
    Socks5ConnectError,
> {
    if reply.len() != 2 {
        Err(Socks5ConnectError::Malformed)
    } else if reply[0] != VERSION {
        Err(Socks5ConnectError::UnexpectedVersion(reply[0]))
    } else if reply[1] == METHOD_NO_AUTH {
        Ok(false)
    } else if reply[1] == METHOD_USER_PASS {
        if offered_auth {
            Ok(true)
        } else {
            Err(Socks5ConnectError::AuthRequired)
        }
    } else if reply[1] == METHOD_NO_ACCEPTABLE {
        Err(Socks5ConnectError::NoAcceptableAuthMethod)
    } else {
        Err(Socks5ConnectError::UnsupportedAuthMethod(reply[1]))
    }
}

/// The proxy's RFC 1929 status `reply`: accepted only as `0x01 0x00`.
pub open spec fn auth_status(reply: Seq<u8>) -> Result<(), Socks5ConnectError> {
    if reply.len() != 2 {
        Err(Socks5ConnectError::Malformed)
    } else if reply[0] != AUTH_VERSION {
        Err(Socks5ConnectError::UnexpectedAuthVersion(reply[0]))
    } else if reply[1] != 0 {
        Err(Socks5ConnectError::AuthRejected)
    } else {
        Ok(())
    }
}

/// The proxy's reply head `VER | REP | RSV | ATYP`: on success, the address
/// type of the bound address that follows.
pub open spec fn reply_head(head: Seq<u8>) -> Result<u8, Socks5ConnectError> {
    if head.len() != 4 {
        Err(Socks5ConnectError::Malformed)
    } else if head[0] != VERSION {
        Err(Socks5ConnectError::UnexpectedVersion(head[0]))
    } else if head[1] != 0 {
        match Socks5Reply::spec_from_u8(head[1]) {
            Some(reply) => Err(Socks5ConnectError::Reply(reply)),
            None => Err(Socks5ConnectError::UnknownReply(head[1])),
        }
    } else if head[3] == ATYP_IPV4 || head[3] == ATYP_IPV6 || head[3] == ATYP_DOMAIN {
        Ok(head[3])
    } else {
        Err(Socks5ConnectError::UnknownAddressType(head[3]))
    }
}

/// One resume of the handshake in phase `v.state`, handed `arg`: the
/// phase it moves to and what it yields or completes with. Every completion
/// moves to `Done`.
pub open spec fn socks5_step(v: Socks5ConnectView, arg: Option<Seq<u8>>) -> (
    Socks5State,
    StepOutput<Result<(), Socks5ConnectError>>,
) {
    match v.state {
        Socks5State::Greet => (Socks5State::Method, StepOutput::Write(greeting_bytes(v.auth is Some))),
        Socks5State::Method => match arg {
            None => (Socks5State::Method, StepOutput::Read(2)),
            Some(data) => match method_selection(data, v.auth is Some) {
                Err(e) => (Socks5State::Done, StepOutput::Finish(Err(e))),
                Ok(true) => (Socks5State::AuthStatus, StepOutput::Write(v.auth->0)),
                Ok(false) => (Socks5State::ReplyHead, StepOutput::Write(v.request)),
            },
        },
        Socks5State::AuthStatus => match arg {
            None => (Socks5State::AuthStatus, StepOutput::Read(2)),
            Some(data) => match auth_status(data) {
                Err(e) => (Socks5State::Done, StepOutput::Finish(Err(e))),
                Ok(()) => (Socks5State::ReplyHead, StepOutput::Write(v.request)),
            },
        },
        Socks5State::ReplyHead => match arg {
            None => (Socks5State::ReplyHead, StepOutput::Read(4)),
            Some(data) => match reply_head(data) {
                Err(e) => (Socks5State::Done, StepOutput::Finish(Err(e))),
                Ok(atyp) => if atyp == ATYP_IPV4 {
                    (Socks5State::ReplyTail(6), StepOutput::Read(6))
                } else if atyp == ATYP_IPV6 {
                    (Socks5State::ReplyTail(18), StepOutput::Read(18))
                } else {
                    (Socks5State::ReplyDomainLen, StepOutput::Read(1))
                },
            },
        },
        Socks5State::ReplyDomainLen => match arg {
            None => (Socks5State::ReplyDomainLen, StepOutput::Read(1)),
            Some(data) => if data.len() != 1 {
                (Socks5State::Done, StepOutput::Finish(Err(Socks5ConnectError::Malformed)))
            } else {
                (
                    Socks5State::ReplyTail((data[0] + 2) as usize),
                    StepOutput::Read((data[0] + 2) as usize),
                )
            },
        },
        Socks5State::ReplyTail(n) => match arg {
            None => (Socks5State::ReplyTail(n), StepOutput::Read(n)),
            Some(data) => if data.len() == n {
                (Socks5State::Done, StepOutput::Finish(Ok(())))
            } else {
                (Socks5State::Done, StepOutput::Finish(Err(Socks5ConnectError::Malformed)))
            },
        },
        // never taken: `resume` requires a phase other than `Done`
        Socks5State::Done => (Socks5State::Done, StepOutput::Finish(Err(Socks5ConnectError::Malformed))),
    }
}

impl View for Socks5Connect {
    type V = Socks5ConnectView;

    closed spec fn view(&self) -> Socks5ConnectView {
        Socks5ConnectView {
            state: self.state,
            auth: auth_message(self.credentials),
            request: connect_request_bytes(self.target),
        }
    }
}

impl Socks5Connect {
    /// Creates a coroutine that tunnels to `target`, authenticating with
    /// `credentials` if the proxy requests username/password.
    pub fn new(target: Socks5Address, credentials: Option<Socks5Credentials>) -> (connect: Self)
        ensures
            connect@.state == Socks5State::Greet,
            connect@.auth == auth_message(credentials),
            connect@.request == connect_request_bytes(target),
    {
        Socks5Connect { target, credentials, state: Socks5State::Greet }
    }

    /// `VER | NMETHODS | METHODS`: offer no-auth, plus username/password
    /// when credentials are available.
    fn greeting(&self) -> (out: Vec<u8>)
        ensures
            out@ == greeting_bytes(self@.auth is Some),
    {
        let mut out: Vec<u8> = Vec::new();
        out.push(VERSION);
        if self.credentials.is_some() {
            out.push(2);
            out.push(METHOD_NO_AUTH);
            out.push(METHOD_USER_PASS);
        } else {
            out.push(1);
            out.push(METHOD_NO_AUTH);
        }
        assert(out@ =~= greeting_bytes(self@.auth is Some));
        out
    }

    /// `VER | CMD | RSV | ATYP | DST.ADDR | DST.PORT`.
    fn request(&self) -> (out: Vec<u8>)
        ensures
            out@ == self@.request,
    {
        let mut out: Vec<u8> = Vec::new();
        out.push(VERSION);
        out.push(CMD_CONNECT);
        out.push(RSV);
        self.target.encode_into(&mut out);
        assert(out@ =~= self@.request);
        out
    }
}

impl ProxyCoroutine for Socks5Connect {
    type Yield = ProxyYield;

    type Return = Result<(), Socks5ConnectError>;

    open spec fn is_done(&self) -> bool {
        self@.state == Socks5State::Done
    }

    fn resume(&mut self, arg: Option<&[u8]>) -> (step: ProxyCoroutineState<
        ProxyYield,
        Result<(), Socks5ConnectError>,
    >)
        ensures
            final(self)@.state == socks5_step(old(self)@, arg_view(arg)).0,
            final(self)@.auth == old(self)@.auth,
            final(self)@.request == old(self)@.request,
            yields_output(step, socks5_step(old(self)@, arg_view(arg)).1),
    {
        match self.state {
            Socks5State::Greet => {
                let bytes = self.greeting();
                self.state = Socks5State::Method;
                ProxyCoroutineState::Yielded(ProxyYield::WantsWrite(bytes))
            },
            Socks5State::Method => {
                let data = match arg {
                    None => return ProxyCoroutineState::Yielded(ProxyYield::WantsRead(2)),
                    Some(data) => data,
                };
                if data.len() != 2 {
                    self.state = Socks5State::Done;
                    return ProxyCoroutineState::Complete(Err(Socks5ConnectError::Malformed));
                }
                let version = data[0];
                let method = data[1];
                if version != VERSION {
                    self.state = Socks5State::Done;
                    return ProxyCoroutineState::Complete(
                        Err(Socks5ConnectError::UnexpectedVersion(version)),
                    );
                }
                if method == METHOD_NO_AUTH {
                    let bytes = self.request();
                    self.state = Socks5State::ReplyHead;
                    ProxyCoroutineState::Yielded(ProxyYield::WantsWrite(bytes))
                } else if method == METHOD_USER_PASS {
                    match &self.credentials {
                        None => {
                            self.state = Socks5State::Done;
                            ProxyCoroutineState::Complete(Err(Socks5ConnectError::AuthRequired))
                        },
                        Some(credentials) => {
                            let bytes = credentials.encode();
                            self.state = Socks5State::AuthStatus;
                            ProxyCoroutineState::Yielded(ProxyYield::WantsWrite(bytes))
                        },
                    }
                } else if method == METHOD_NO_ACCEPTABLE {
                    self.state = Socks5State::Done;
                    ProxyCoroutineState::Complete(Err(Socks5ConnectError::NoAcceptableAuthMethod))
                } else {
                    self.state = Socks5State::Done;
                    ProxyCoroutineState::Complete(
                        Err(Socks5ConnectError::UnsupportedAuthMethod(method)),
                    )
                }
            },
            Socks5State::AuthStatus => {
                let data = match arg {
                    None => return ProxyCoroutineState::Yielded(ProxyYield::WantsRead(2)),
                    Some(data) => data,
                };
                if data.len() != 2 {
                    self.state = Socks5State::Done;
                    return ProxyCoroutineState::Complete(Err(Socks5ConnectError::Malformed));
                }
                let version = data[0];
                let status = data[1];
                if version != AUTH_VERSION {
                    self.state = Socks5State::Done;
                    return ProxyCoroutineState::Complete(
                        Err(Socks5ConnectError::UnexpectedAuthVersion(version)),
                    );
                }
                if status != 0 {
                    self.state = Socks5State::Done;
                    return ProxyCoroutineState::Complete(Err(Socks5ConnectError::AuthRejected));
                }
                let bytes = self.request();
                self.state = Socks5State::ReplyHead;
                ProxyCoroutineState::Yielded(ProxyYield::WantsWrite(bytes))
            },
            Socks5State::ReplyHead => {
                let data = match arg {
                    None => return ProxyCoroutineState::Yielded(ProxyYield::WantsRead(4)),
                    Some(data) => data,
                };
                if data.len() != 4 {
                    self.state = Socks5State::Done;
                    return ProxyCoroutineState::Complete(Err(Socks5ConnectError::Malformed));
                }
                let version = data[0];
                let rep = data[1];
                let atyp = data[3];
                if version != VERSION {
                    self.state = Socks5State::Done;
                    return ProxyCoroutineState::Complete(
                        Err(Socks5ConnectError::UnexpectedVersion(version)),
                    );
                }
                if rep != 0 {
                    let err = match Socks5Reply::from_u8(rep) {
                        Some(reply) => Socks5ConnectError::Reply(reply),
                        None => Socks5ConnectError::UnknownReply(rep),
                    };
                    self.state = Socks5State::Done;
                    return ProxyCoroutineState::Complete(Err(err));
                }
                // the bound address is consumed so the socket is left at the
                // tunnel start; its value is not needed
                if atyp == ATYP_IPV4 {
                    self.state = Socks5State::ReplyTail(6);
                    ProxyCoroutineState::Yielded(ProxyYield::WantsRead(6))
                } else if atyp == ATYP_IPV6 {
                    self.state = Socks5State::ReplyTail(18);
                    ProxyCoroutineState::Yielded(ProxyYield::WantsRead(18))
                } else if atyp == ATYP_DOMAIN {
                    self.state = Socks5State::ReplyDomainLen;
                    ProxyCoroutineState::Yielded(ProxyYield::WantsRead(1))
                } else {
                    self.state = Socks5State::Done;
                    ProxyCoroutineState::Complete(Err(Socks5ConnectError::UnknownAddressType(atyp)))
                }
            },
            Socks5State::ReplyDomainLen => {
                let data = match arg {
                    None => return ProxyCoroutineState::Yielded(ProxyYield::WantsRead(1)),
                    Some(data) => data,
                };
                if data.len() != 1 {
                    self.state = Socks5State::Done;
                    return ProxyCoroutineState::Complete(Err(Socks5ConnectError::Malformed));
                }
                let n = data[0] as usize + 2;
                self.state = Socks5State::ReplyTail(n);
                ProxyCoroutineState::Yielded(ProxyYield::WantsRead(n))
            },
            Socks5State::ReplyTail(n) => {
                match arg {
                    None => ProxyCoroutineState::Yielded(ProxyYield::WantsRead(n)),
                    Some(data) => {
                        self.state = Socks5State::Done;
                        if data.len() == n {
                            ProxyCoroutineState::Complete(Ok(()))
                        } else {
                            ProxyCoroutineState::Complete(Err(Socks5ConnectError::Malformed))
                        }
                    },
                }
            },
            Socks5State::Done => {
                proof {
                    assert(false);
                }
                ProxyCoroutineState::Complete(Err(Socks5ConnectError::Malformed))
            },
        }
    }
}

/// Pumps the handshake from `v`, handing it `arg` first, as a caller that
/// owns the socket does: every write request is carried out, and every read
/// request of `n` bytes is served with the next `n` bytes of `input`. Stops
/// when the handshake completes, when `input` runs short of a read, or
/// after `fuel` resumes. Gives the coroutine after the last resume, the
/// bytes written, what is left of `input`, and the completion, if any.
pub open spec fn socks5_pump(
    v: Socks5ConnectView,
    arg: Option<Seq<u8>>,
    input: Seq<u8>,
    fuel: nat,
) -> (Socks5ConnectView, Seq<u8>, Seq<u8>, Option<Result<(), Socks5ConnectError>>)
    decreases fuel,
{
    if fuel == 0 {
        (v, Seq::empty(), input, None)
    } else {
        let (state, out) = socks5_step(v, arg);
        let next = Socks5ConnectView { state, auth: v.auth, request: v.request };
        match out {
            StepOutput::Finish(r) => (next, Seq::empty(), input, Some(r)),
            StepOutput::Write(bytes) => {
                let (last, written, rest, done) = socks5_pump(next, None, input, (fuel - 1) as nat);
                (last, bytes + written, rest, done)
            },
            StepOutput::Read(n) => if n <= input.len() {
                socks5_pump(next, Some(input.take(n as int)), input.skip(n as int), (fuel - 1) as nat)
            } else {
                (next, Seq::empty(), input, None)
            },
        }
    }
}

/// Whether `bound` is exactly a `BND.ADDR | BND.PORT` of address type
/// `atyp`: 4 or 16 address bytes, or a length byte and that many name
/// bytes, then 2 port bytes.
pub open spec fn bound_address_framed(atyp: u8, bound: Seq<u8>) -> bool {
    ||| atyp == ATYP_IPV4 && bound.len() == 6
    ||| atyp == ATYP_IPV6 && bound.len() == 18
    ||| atyp == ATYP_DOMAIN && bound.len() >= 1 && bound.len() == bound[0] + 3
}

/// What a proxy sends during a handshake that succeeds: its selection of
/// `method`, the accepted RFC 1929 status when that method is
/// username/password, then a success reply head and the bound address.
pub open spec fn socks5_success_replies(method: u8, rsv: u8, atyp: u8, bound: Seq<u8>) -> Seq<u8> {
    seq![VERSION, method] + (if method == METHOD_USER_PASS {
        seq![AUTH_VERSION, 0u8]
    } else {
        Seq::empty()
    }) + seq![VERSION, 0u8, rsv, atyp] + bound
}

/// The coroutine `v` moved to phase `state`.
pub open spec fn in_state(v: Socks5ConnectView, state: Socks5State) -> Socks5ConnectView {
    Socks5ConnectView { state, auth: v.auth, request: v.request }
}

/// From the reply head on, a successful reply is read exactly.
proof fn lemma_reply_read_exactly(
    v: Socks5ConnectView,
    rsv: u8,
    atyp: u8,
    bound: Seq<u8>,
    tunnel: Seq<u8>,
    fuel: nat,
)
    requires
        v.state == Socks5State::ReplyHead,
        bound_address_framed(atyp, bound),
        fuel >= 4,
    ensures
        socks5_pump(v, None, seq![VERSION, 0u8, rsv, atyp] + bound + tunnel, fuel) == (
            in_state(v, Socks5State::Done),
            Seq::<u8>::empty(),
            tunnel,
            Some(Ok::<(), Socks5ConnectError>(())),
        ),
{
    let head = seq![VERSION, 0u8, rsv, atyp];
    let input = head + bound + tunnel;
    let after_head = bound + tunnel;
    assert(input.take(4) =~= head);
    assert(input.skip(4) =~= after_head);
    assert(reply_head(head) == Ok::<u8, Socks5ConnectError>(atyp));
    let f1 = (fuel - 1) as nat;
    let f2 = (fuel - 2) as nat;
    let f3 = (fuel - 3) as nat;
    assert(socks5_pump(v, None, input, fuel) == socks5_pump(v, Some(head), after_head, f1));
    if atyp == ATYP_DOMAIN {
        let n = (bound[0] + 2) as usize;
        let vl = in_state(v, Socks5State::ReplyDomainLen);
        let vt = in_state(v, Socks5State::ReplyTail(n));
        let after_len = bound.skip(1) + tunnel;
        assert(after_head.take(1) =~= seq![bound[0]]);
        assert(after_head.skip(1) =~= after_len);
        assert(after_len.skip(n as int) =~= tunnel);
        assert(socks5_pump(v, Some(head), after_head, f1) == socks5_pump(
            vl,
            Some(seq![bound[0]]),
            after_len,
            f2,
        ));
        assert(socks5_pump(vl, Some(seq![bound[0]]), after_len, f2) == socks5_pump(
            vt,
            Some(after_len.take(n as int)),
            tunnel,
            f3,
        ));
    } else {
        let n = bound.len() as usize;
        let vt = in_state(v, Socks5State::ReplyTail(n));
        assert(after_head.take(n as int) =~= bound);
        assert(after_head.skip(n as int) =~= tunnel);
        assert(socks5_pump(v, Some(head), after_head, f1) == socks5_pump(vt, Some(bound), tunnel, f2));
    }
}

/// No over-read: pumping a fresh handshake against a proxy that answers a
/// successful handshake and then sends tunnel bytes completes with `Ok`,
/// having written the greeting, the credentials when the proxy chose
/// username/password, and the `CONNECT` request, and having read exactly
/// the proxy's handshake messages, so every tunnel byte is left unread.
pub proof fn law_socks5_reads_exactly_the_handshake(
    v: Socks5ConnectView,
    method: u8,
    rsv: u8,
    atyp: u8,
    bound: Seq<u8>,
    tunnel: Seq<u8>,
)
    requires
        v.state == Socks5State::Greet,
        method == METHOD_NO_AUTH || (method == METHOD_USER_PASS && v.auth is Some),
        bound_address_framed(atyp, bound),
    ensures
        socks5_pump(v, None, socks5_success_replies(method, rsv, atyp, bound) + tunnel, 10) == (
            in_state(v, Socks5State::Done),
            greeting_bytes(v.auth is Some) + (if method == METHOD_USER_PASS {
                v.auth->0
            } else {
                Seq::empty()
            }) + v.request,
            tunnel,
            Some(Ok::<(), Socks5ConnectError>(())),
        ),
{
    let head = seq![VERSION, 0u8, rsv, atyp];
    let reply = head + bound + tunnel;
    let greeting = greeting_bytes(v.auth is Some);
    let vm = in_state(v, Socks5State::Method);
    let vr = in_state(v, Socks5State::ReplyHead);
    let done = (
        in_state(v, Socks5State::Done),
        Seq::<u8>::empty(),
        tunnel,
        Some(Ok::<(), Socks5ConnectError>(())),
    );
    if method == METHOD_USER_PASS {
        let va = in_state(v, Socks5State::AuthStatus);
        let after_method = seq![AUTH_VERSION, 0u8] + reply;
        let input = seq![VERSION, method] + after_method;
        assert(socks5_success_replies(method, rsv, atyp, bound) + tunnel =~= input);
        assert(input.take(2) =~= seq![VERSION, method]);
        assert(input.skip(2) =~= after_method);
        assert(after_method.take(2) =~= seq![AUTH_VERSION, 0u8]);
        assert(after_method.skip(2) =~= reply);
        lemma_reply_read_exactly(vr, rsv, atyp, bound, tunnel, 5);
        let auth = v.auth->0;
        assert(socks5_pump(vr, None, reply, 5) == done);
        assert(socks5_pump(va, Some(seq![AUTH_VERSION, 0u8]), reply, 6) == (
            done.0,
            v.request + done.1,
            done.2,
            done.3,
        ));
        assert(socks5_pump(va, None, after_method, 7) == socks5_pump(
            va,
            Some(seq![AUTH_VERSION, 0u8]),
            reply,
            6,
        ));
        assert(socks5_pump(vm, Some(seq![VERSION, method]), after_method, 8) == (
            done.0,
            auth + (v.request + done.1),
            done.2,
            done.3,
        ));
        assert(socks5_pump(vm, None, input, 9) == socks5_pump(
            vm,
            Some(seq![VERSION, method]),
            after_method,
            8,
        ));
        assert(greeting + (auth + (v.request + Seq::<u8>::empty())) =~= greeting + auth + v.request);
    } else {
        let input = seq![VERSION, method] + reply;
        assert(socks5_success_replies(method, rsv, atyp, bound) + tunnel =~= input);
        assert(input.take(2) =~= seq![VERSION, method]);
        assert(input.skip(2) =~= reply);
        lemma_reply_read_exactly(vr, rsv, atyp, bound, tunnel, 7);
        assert(socks5_pump(vr, None, reply, 7) == done);
        assert(socks5_pump(vm, Some(seq![VERSION, method]), reply, 8) == (
            done.0,
            v.request + done.1,
            done.2,
            done.3,
        ));
        assert(socks5_pump(vm, None, input, 9) == socks5_pump(
            vm,
            Some(seq![VERSION, method]),
            reply,
            8,
        ));
        assert(greeting + (v.request + Seq::<u8>::empty()) =~= greeting + Seq::<u8>::empty()
            + v.request);
    }
}

/// The handshake goes past the method selection only when the proxy chose
/// a method that was offered: no-auth, or username/password when
/// credentials are present. Without credentials, a username/password
/// selection fails with `AuthRequired`.
pub proof fn law_socks5_only_offered_methods(v: Socks5ConnectView, reply: Seq<u8>)
    requires
        v.state == Socks5State::Method,
    ensures
        !(socks5_step(v, Some(reply)).1 is Finish) ==> reply.len() == 2 && reply[0] == VERSION && (
        reply[1] == METHOD_NO_AUTH || (reply[1] == METHOD_USER_PASS && v.auth is Some)),
        reply.len() == 2 && reply[0] == VERSION && reply[1] == METHOD_USER_PASS && v.auth is None
            ==> socks5_step(v, Some(reply)).1 == StepOutput::Finish(
            Err::<(), Socks5ConnectError>(Socks5ConnectError::AuthRequired),
        ),
{
}

/// A resume completes exactly when it moves the handshake to `Done`, so a
/// completed handshake is never resumed again.
pub proof fn law_socks5_completion_is_final(v: Socks5ConnectView, arg: Option<Seq<u8>>)
    requires
        v.state != Socks5State::Done,
    ensures
        socks5_step(v, arg).1 is Finish <==> socks5_step(v, arg).0 == Socks5State::Done,
{
}

/// Whether the phase is one a handshake can be in: a pending bound-address
/// read is for 2 to 257 bytes (an IPv4 or IPv6 address with its port, or a
/// domain name of up to 255 bytes with its port).
pub open spec fn socks5_state_ok(state: Socks5State) -> bool {
    match state {
        Socks5State::ReplyTail(n) => 2 <= n <= 257,
        _ => true,
    }
}

/// Every resume keeps the phase one a handshake can be in, and every read
/// it requests is for 1 to 257 bytes, so a pump with a 258-byte buffer
/// serves every read.
pub proof fn law_socks5_reads_are_bounded(v: Socks5ConnectView, arg: Option<Seq<u8>>)
    requires
        socks5_state_ok(v.state),
        v.state != Socks5State::Done,
    ensures
        socks5_state_ok(socks5_step(v, arg).0),
        socks5_step(v, arg).1 matches StepOutput::Read(n) ==> 1 <= n <= 257,
{
}

/// The greeting offers the no-authentication method always and the
/// username/password method exactly when credentials are present:
/// `05 | NMETHODS | METHODS` with `NMETHODS` the number of methods listed.
pub proof fn law_socks5_greeting(v: Socks5ConnectView, arg: Option<Seq<u8>>)
    requires
        v.state == Socks5State::Greet,
    ensures
        socks5_step(v, arg).0 == Socks5State::Method,
        (socks5_step(v, arg).1 matches StepOutput::Write(g) && {
            &&& g.len() >= 3
            &&& g[0] == 0x05
            &&& g[1] == g.len() - 2
            &&& g[2] == 0x00
            &&& (v.auth is Some <==> g.len() == 4)
            &&& (v.auth is Some ==> g[3] == 0x02)
        }),
{
}

/// What the proxy's 2-byte method selection `05 | METHOD` leads to: no-auth
/// sends the `CONNECT` request, username/password sends the credentials
/// when they are present and fails with `AuthRequired` otherwise, `FF`
/// fails with `NoAcceptableAuthMethod`, any other method with
/// `UnsupportedAuthMethod`. Another version fails with `UnexpectedVersion`,
/// another length with `Malformed`.
pub proof fn law_socks5_method_selection(v: Socks5ConnectView, reply: Seq<u8>)
    requires
        v.state == Socks5State::Method,
    ensures
        ({
            let (state, out) = socks5_step(v, Some(reply));
            &&& reply.len() != 2 ==> state == Socks5State::Done && out == StepOutput::Finish(
                Err::<(), Socks5ConnectError>(Socks5ConnectError::Malformed),
            )
            &&& reply.len() == 2 && reply[0] != 0x05 ==> state == Socks5State::Done && out
                == StepOutput::Finish(
                Err::<(), Socks5ConnectError>(Socks5ConnectError::UnexpectedVersion(reply[0])),
            )
            &&& reply == seq![0x05u8, 0x00u8] ==> state == Socks5State::ReplyHead && out
                == StepOutput::<Result<(), Socks5ConnectError>>::Write(v.request)
            &&& reply == seq![0x05u8, 0x02u8] && v.auth is Some ==> state == Socks5State::AuthStatus
                && out == StepOutput::<Result<(), Socks5ConnectError>>::Write(v.auth->0)
            &&& reply == seq![0x05u8, 0x02u8] && v.auth is None ==> state == Socks5State::Done && out
                == StepOutput::Finish(
                Err::<(), Socks5ConnectError>(Socks5ConnectError::AuthRequired),
            )
            &&& reply == seq![0x05u8, 0xFFu8] ==> state == Socks5State::Done && out
                == StepOutput::Finish(
                Err::<(), Socks5ConnectError>(Socks5ConnectError::NoAcceptableAuthMethod),
            )
            &&& reply.len() == 2 && reply[0] == 0x05 && reply[1] != 0x00 && reply[1] != 0x02
                && reply[1] != 0xFF ==> state == Socks5State::Done && out == StepOutput::Finish(
                Err::<(), Socks5ConnectError>(Socks5ConnectError::UnsupportedAuthMethod(reply[1])),
            )
        }),
{
}

/// The RFC 1929 status: `01 | 00` goes on to send the `CONNECT` request;
/// `01 | s` with any other status `s` fails with `AuthRejected`; another
/// version fails with `UnexpectedAuthVersion`, another length with
/// `Malformed`. The request is sent only after the status `00`.
pub proof fn law_socks5_auth_status(v: Socks5ConnectView, reply: Seq<u8>)
    requires
        v.state == Socks5State::AuthStatus,
    ensures
        ({
            let (state, out) = socks5_step(v, Some(reply));
            &&& reply == seq![0x01u8, 0x00u8] ==> state == Socks5State::ReplyHead && out
                == StepOutput::<Result<(), Socks5ConnectError>>::Write(v.request)
            &&& reply.len() == 2 && reply[0] == 0x01 && reply[1] != 0x00 ==> state
                == Socks5State::Done && out == StepOutput::Finish(
                Err::<(), Socks5ConnectError>(Socks5ConnectError::AuthRejected),
            )
            &&& reply.len() == 2 && reply[0] != 0x01 ==> state == Socks5State::Done && out
                == StepOutput::Finish(
                Err::<(), Socks5ConnectError>(Socks5ConnectError::UnexpectedAuthVersion(reply[0])),
            )
            &&& reply.len() != 2 ==> state == Socks5State::Done && out == StepOutput::Finish(
                Err::<(), Socks5ConnectError>(Socks5ConnectError::Malformed),
            )
            &&& out is Write ==> reply == seq![0x01u8, 0x00u8]
        }),
{
    assert(reply.len() == 2 && reply[0] == 0x01 && reply[1] == 0x00 ==> reply =~= seq![
        0x01u8,
        0x00u8,
    ]);
}

/// The reply head `05 | REP | RSV | ATYP`: a refusal (`REP` other than
/// `00`) fails with the reply whose RFC 1928 code is `REP`, or with
/// `UnknownReply(REP)` beyond `08`; the handshake goes on to read the bound
/// address only when `REP` is `00`, reading 6 bytes for IPv4, 18 for IPv6,
/// the 1-byte length first for a domain, and failing with
/// `UnknownAddressType` for any other address type.
pub proof fn law_socks5_reply_head(v: Socks5ConnectView, head: Seq<u8>)
    requires
        v.state == Socks5State::ReplyHead,
    ensures
        ({
            let (state, out) = socks5_step(v, Some(head));
            &&& head.len() == 4 && head[0] == 0x05 && head[1] != 0x00 ==> state
                == Socks5State::Done
            &&& head.len() == 4 && head[0] == 0x05 && head[1] != 0x00 ==> (out matches StepOutput::Finish(
                Err(e),
            ) && (head[1] <= 0x08 ==> (e matches Socks5ConnectError::Reply(r) && r.code()
                == head[1])) && (head[1] > 0x08 ==> e == Socks5ConnectError::UnknownReply(head[1])))
            &&& !(out is Finish) ==> head.len() == 4 && head[0] == 0x05 && head[1] == 0x00
            &&& head.len() == 4 && head[0] == 0x05 && head[1] == 0x00 ==> {
                &&& head[3] == 0x01 ==> state == Socks5State::ReplyTail(6) && out
                    == StepOutput::<Result<(), Socks5ConnectError>>::Read(6)
                &&& head[3] == 0x04 ==> state == Socks5State::ReplyTail(18) && out
                    == StepOutput::<Result<(), Socks5ConnectError>>::Read(18)
                &&& head[3] == 0x03 ==> state == Socks5State::ReplyDomainLen && out
                    == StepOutput::<Result<(), Socks5ConnectError>>::Read(1)
                &&& head[3] != 0x01 && head[3] != 0x03 && head[3] != 0x04 ==> out
                    == StepOutput::Finish(
                    Err::<(), Socks5ConnectError>(
                        Socks5ConnectError::UnknownAddressType(head[3]),
                    ),
                )
            }
            &&& head.len() == 4 && head[0] != 0x05 ==> out == StepOutput::Finish(
                Err::<(), Socks5ConnectError>(Socks5ConnectError::UnexpectedVersion(head[0])),
            )
            &&& head.len() != 4 ==> out == StepOutput::Finish(
                Err::<(), Socks5ConnectError>(Socks5ConnectError::Malformed),
            )
        }),
{
}

/// The bound address: a domain length byte `L` asks for the `L` name bytes
/// and the 2 port bytes; the tail completes with `Ok` exactly when it is as
/// long as was asked for, and with `Malformed` otherwise.
pub proof fn law_socks5_bound_address(v: Socks5ConnectView, data: Seq<u8>)
    ensures
        v.state == Socks5State::ReplyDomainLen && data.len() == 1 ==> socks5_step(v, Some(data))
            == (
            Socks5State::ReplyTail((data[0] + 2) as usize),
            StepOutput::<Result<(), Socks5ConnectError>>::Read((data[0] + 2) as usize),
        ),
        v.state matches Socks5State::ReplyTail(n) ==> socks5_step(v, Some(data)) == (
            Socks5State::Done,
            StepOutput::Finish(
                if data.len() == n {
                    Ok::<(), Socks5ConnectError>(())
                } else {
                    Err(Socks5ConnectError::Malformed)
                },
            ),
        ),
{
}

/// The `CONNECT` request is `05 | 01 | 00` followed by the target's
/// address encoding.
pub proof fn law_socks5_connect_request(target: Socks5Address)
    ensures
        connect_request_bytes(target).take(3) == seq![0x05u8, 0x01u8, 0x00u8],
        connect_request_bytes(target).skip(3) == address_bytes(target),
{
    assert(connect_request_bytes(target).take(3) =~= seq![0x05u8, 0x01u8, 0x00u8]);
    assert(connect_request_bytes(target).skip(3) =~= address_bytes(target));
}

} // verus!
