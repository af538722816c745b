//! Generator-shape coroutine driver mirroring `core::ops::Coroutine`:
//! a `Yield` associated type for intermediate progress, a `Return` for
//! terminal output, and a two-variant [`ProxyCoroutineState`]
//! (`Yielded` / `Complete`). Shared by every proxy protocol.
use vstd::prelude::*;

verus! {

/// State yielded by a [`ProxyCoroutine::resume`] step.
#[derive(Debug)]
pub enum ProxyCoroutineState<Y, R> {
    /// Intermediate step: the coroutine needs the caller to perform the
    /// carried I/O request before the next resume.
    Yielded(Y),
    /// Terminal step: the coroutine is done and carries its final output
    /// or error.
    Complete(R),
}

/// Standard-shape proxy coroutine: owns its internal state, declares a
/// per-step `Yield`, and returns `Result<Output, Error>` on completion.
pub trait ProxyCoroutine {
    /// The intermediate value emitted on every yielded step.
    type Yield;

    /// The terminal value emitted on completion.
    type Return;

    /// Whether the coroutine has already returned `Complete`; resuming it
    /// then is a programming error.
    spec fn is_done(&self) -> bool;

    /// Advances one step.
    ///
    /// Pass `None` initially and after every [`ProxyYield::WantsWrite`];
    /// pass `Some(data)` after a [`ProxyYield::WantsRead`] with exactly the
    /// requested bytes. A step completes exactly when it leaves the
    /// coroutine done, so a completed coroutine is never resumed again.
    fn resume(&mut self, arg: Option<&[u8]>) -> (step: ProxyCoroutineState<
        Self::Yield,
        Self::Return,
    >)
        requires
            !old(self).is_done(),
        ensures
            step matches ProxyCoroutineState::Complete(_) <==> final(self).is_done(),
    ;
}

/// I/O request emitted by a yielded coroutine step.
///
/// `WantsRead` carries an exact byte count rather than an open-ended
/// "read some": the pump reads exactly that many bytes and never consumes
/// tunnel payload that arrives right after the handshake.
#[derive(Debug)]
pub enum ProxyYield {
    /// The coroutine wants exactly this many bytes read from the stream
    /// and handed back on the next resume.
    WantsRead(usize),
    /// The coroutine wants these bytes written to the stream.
    WantsWrite(Vec<u8>),
}

/// The bytes handed to a resume, as a sequence.
pub open spec fn arg_view(arg: Option<&[u8]>) -> Option<Seq<u8>> {
    match arg {
        Some(data) => Some(data@),
        None => None,
    }
}

/// What one resume step does, at the level of the bytes exchanged.
pub enum StepOutput<R> {
    /// Yields a request to write exactly these bytes.
    Write(Seq<u8>),
    /// Yields a request to read exactly this many bytes.
    Read(usize),
    /// Completes with this value.
    Finish(R),
}

/// `state` is the executable rendering of `out`.
pub open spec fn yields_output<R>(state: ProxyCoroutineState<ProxyYield, R>, out: StepOutput<R>) -> bool {
    match out {
        StepOutput::Write(bytes) => state matches ProxyCoroutineState::Yielded(
            ProxyYield::WantsWrite(v),
        ) && v@ == bytes,
        StepOutput::Read(n) => state matches ProxyCoroutineState::Yielded(ProxyYield::WantsRead(m))
            && m == n,
        StepOutput::Finish(r) => state matches ProxyCoroutineState::Complete(x) && x == r,
    }
}

} // verus!
