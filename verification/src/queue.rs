//! How the device works its queue off.
//!
//! A chain of the queue holds a request in its first buffer and has room for the reply in its second.

use vstd::prelude::*;
use vstd::pervasive::unreached;

use crate::le;
use crate::step::Step;

verus! {

/// Why working the queue off stopped. `Q` is what the queue reports, `M` what guest memory reports.
#[derive(Debug)]
pub enum Error<Q, M> {
    /// The chain has fewer than two descriptors.
    DescriptorChainTooShort,
    /// A descriptor is no good, or has the wrong direction.
    InvalidDescriptor,
    /// The chain could not be put on the used ring.
    QueueAddUsed(Q),
    /// The request could not be read.
    GuestMemoryRead(M),
    /// The reply could not be written.
    GuestMemoryWrite(M),
}

/// A buffer of guest memory.
#[derive(Clone, Copy, Debug, PartialEq, Eq, Structural)]
pub struct Descriptor {
    pub addr: u64,
    pub len: u32,
    pub write_only: bool,
}

/// What stands at one place of a chain.
#[derive(Clone, Copy, Debug, PartialEq, Eq, Structural)]
pub enum Found {
    /// The chain ends ahead of it.
    Nothing,
    /// A descriptor that does not lie in guest memory.
    Invalid,
    /// A descriptor.
    Valid(Descriptor),
}

/// The first two places of a chain.
#[derive(Clone, Copy, Debug, PartialEq, Eq, Structural)]
pub struct Chain {
    pub first: Found,
    pub second: Found,
}

/// Work on the queue and on guest memory.
#[derive(Debug)]
pub enum QueueCall {
    /// Take the next chain that the guest has made available.
    Pop,
    /// Read the eight bytes of the request's header.
    ReadHeader { addr: u64 },
    /// Read the request.
    ReadRequest { addr: u64, len: u32 },
    /// Carry the request out.
    Handle { req: Vec<u8> },
    /// Write the reply.
    WriteReply { addr: u64, reply: Vec<u8> },
    /// Put the chain on the used ring.
    AddUsed { len: u32 },
}

/// What a `QueueCall` says.
pub ghost enum QueueCallView {
    Pop,
    ReadHeader { addr: u64 },
    ReadRequest { addr: u64, len: u32 },
    Handle { req: Seq<u8> },
    WriteReply { addr: u64, reply: Seq<u8> },
    AddUsed { len: u32 },
}

impl View for QueueCall {
    type V = QueueCallView;

    open spec fn view(&self) -> QueueCallView {
        match *self {
            QueueCall::Pop => QueueCallView::Pop,
            QueueCall::ReadHeader { addr } => QueueCallView::ReadHeader { addr },
            QueueCall::ReadRequest { addr, len } => QueueCallView::ReadRequest { addr, len },
            QueueCall::Handle { req } => QueueCallView::Handle { req: req@ },
            QueueCall::WriteReply { addr, reply } => QueueCallView::WriteReply {
                addr,
                reply: reply@,
            },
            QueueCall::AddUsed { len } => QueueCallView::AddUsed { len },
        }
    }
}

/// What came of a call.
#[derive(Debug)]
pub enum QueueAnswer<Q, M> {
    /// The chain, if there is one.
    Popped(Option<Chain>),
    /// The header.
    Header(Result<[u8; 8], M>),
    /// The request.
    Request(Result<Vec<u8>, M>),
    /// The reply.
    Handled(Vec<u8>),
    /// Whether the reply was written.
    Written(Result<(), M>),
    /// Whether the chain is on the used ring.
    Used(Result<(), Q>),
}

/// The call that is outstanding, and what is needed behind it.
#[derive(Clone, Copy, Debug, PartialEq, Eq, Structural)]
pub enum Stage {
    Pop,
    Header { req: Descriptor, rsp: Descriptor },
    Request { len: u32, rsp: Descriptor },
    Handle { rsp: Descriptor },
    Write { written: u32 },
    AddUsed,
}

/// Where working the queue off stands: whether a chain has been used, and the outstanding call.
#[derive(Clone, Copy, Debug, PartialEq, Eq, Structural)]
pub struct QueueState {
    pub used: bool,
    pub stage: Stage,
}

/// What to do next, or whether any chain was used.
pub type QueueStep<Q, M> = Step<QueueState, QueueCall, Result<bool, Error<Q, M>>>;

/// What a `QueueStep` says.
pub open spec fn step_view<Q, M>(step: QueueStep<Q, M>) -> Step<
    QueueState,
    QueueCallView,
    Result<bool, Error<Q, M>>,
> {
    match step {
        Step::Call(state, call) => Step::Call(state, call@),
        Step::Done(r) => Step::Done(r),
    }
}

/// The descriptor that stands there.
pub open spec fn found<Q, M>(place: Found) -> Result<Descriptor, Error<Q, M>> {
    match place {
        Found::Nothing => Err(Error::DescriptorChainTooShort),
        Found::Invalid => Err(Error::InvalidDescriptor),
        Found::Valid(d) => Ok(d),
    }
}

/// The request's and the reply's buffer: the first two descriptors, of which the device may only
/// read the first and must be able to write the second.
pub open spec fn buffers<Q, M>(chain: Chain) -> Result<(Descriptor, Descriptor), Error<Q, M>> {
    match found(chain.first) {
        Err(e) => Err(e),
        Ok(req) => match found(chain.second) {
            Err(e) => Err(e),
            Ok(rsp) => if req.write_only || !rsp.write_only {
                Err(Error::InvalidDescriptor)
            } else {
                Ok((req, rsp))
            },
        },
    }
}

/// The bytes of the request: what its header says, but no more than the descriptor has.
pub open spec fn request_len(header: Seq<u8>, req: Descriptor) -> u32 {
    if le::u32_at(header, 4) < req.len {
        le::u32_at(header, 4)
    } else {
        req.len
    }
}

/// The bytes of the reply that the descriptor has room for.
pub open spec fn reply_len(reply: Seq<u8>, rsp: Descriptor) -> u32 {
    if reply.len() < rsp.len {
        reply.len() as u32
    } else {
        rsp.len
    }
}

/// The answer is to the call that is outstanding, and as long as was asked for.
pub open spec fn answers<Q, M>(state: QueueState, answer: QueueAnswer<Q, M>) -> bool {
    match state.stage {
        Stage::Pop => answer is Popped,
        Stage::Header { .. } => answer is Header,
        Stage::Request { len, .. } => {
            &&& answer is Request
            &&& answer matches QueueAnswer::Request(Ok(req)) ==> req@.len() == len
        },
        Stage::Handle { .. } => answer is Handled,
        Stage::Write { .. } => answer is Written,
        Stage::AddUsed => answer is Used,
    }
}

/// What to do after the reply to a request came in.
pub open spec fn handled_next<Q, M>(used: bool, rsp: Descriptor, reply: Seq<u8>) -> Step<
    QueueState,
    QueueCallView,
    Result<bool, Error<Q, M>>,
> {
    let written = reply_len(reply, rsp);
    Step::Call(
        QueueState { used, stage: Stage::Write { written } },
        QueueCallView::WriteReply { addr: rsp.addr, reply: reply.take(written as int) },
    )
}

/// What to do after an answer came in.
pub open spec fn queue_next<Q, M>(state: QueueState, answer: QueueAnswer<Q, M>) -> Step<
    QueueState,
    QueueCallView,
    Result<bool, Error<Q, M>>,
> {
    match (state.stage, answer) {
        (Stage::Pop, QueueAnswer::Popped(None)) => Step::Done(Ok(state.used)),
        (Stage::Pop, QueueAnswer::Popped(Some(chain))) => match buffers(chain) {
            Err(e) => Step::Done(Err(e)),
            Ok((req, rsp)) => Step::Call(
                QueueState { used: state.used, stage: Stage::Header { req, rsp } },
                QueueCallView::ReadHeader { addr: req.addr },
            ),
        },
        (Stage::Header { req, rsp }, QueueAnswer::Header(Ok(header))) => {
            let len = request_len(header@, req);
            Step::Call(
                QueueState { used: state.used, stage: Stage::Request { len, rsp } },
                QueueCallView::ReadRequest { addr: req.addr, len },
            )
        },
        (Stage::Header { .. }, QueueAnswer::Header(Err(e))) => Step::Done(
            Err(Error::GuestMemoryRead(e)),
        ),
        (Stage::Request { rsp, .. }, QueueAnswer::Request(Ok(req))) => Step::Call(
            QueueState { used: state.used, stage: Stage::Handle { rsp } },
            QueueCallView::Handle { req: req@ },
        ),
        (Stage::Request { .. }, QueueAnswer::Request(Err(e))) => Step::Done(
            Err(Error::GuestMemoryRead(e)),
        ),
        (Stage::Handle { rsp }, QueueAnswer::Handled(reply)) => handled_next(
            state.used,
            rsp,
            reply@,
        ),
        (Stage::Write { written }, QueueAnswer::Written(Ok(_))) => Step::Call(
            QueueState { used: state.used, stage: Stage::AddUsed },
            QueueCallView::AddUsed { len: written },
        ),
        (Stage::Write { .. }, QueueAnswer::Written(Err(e))) => Step::Done(
            Err(Error::GuestMemoryWrite(e)),
        ),
        (Stage::AddUsed, QueueAnswer::Used(Ok(_))) => Step::Call(
            QueueState { used: true, stage: Stage::Pop },
            QueueCallView::Pop,
        ),
        (Stage::AddUsed, QueueAnswer::Used(Err(e))) => Step::Done(Err(Error::QueueAddUsed(e))),
        _ => arbitrary(),
    }
}

/// Finds the descriptor that stands there.
fn descriptor<Q, M>(place: Found) -> (r: Result<Descriptor, Error<Q, M>>)
    ensures
        r == found::<Q, M>(place),
{
    match place {
        Found::Nothing => Err(Error::DescriptorChainTooShort),
        Found::Invalid => Err(Error::InvalidDescriptor),
        Found::Valid(d) => Ok(d),
    }
}

/// Finds the request's and the reply's buffer.
pub fn chain_buffers<Q, M>(chain: Chain) -> (r: Result<(Descriptor, Descriptor), Error<Q, M>>)
    ensures
        r == buffers::<Q, M>(chain),
{
    let req: Descriptor = match descriptor(chain.first) {
        Ok(d) => d,
        Err(e) => {
            return Err(e);
        },
    };
    let rsp: Descriptor = match descriptor(chain.second) {
        Ok(d) => d,
        Err(e) => {
            return Err(e);
        },
    };
    if req.write_only || !rsp.write_only {
        return Err(Error::InvalidDescriptor);
    }
    Ok((req, rsp))
}

/// Starts to work the queue off.
pub fn process_queue<Q, M>() -> (step: QueueStep<Q, M>)
    ensures
        step_view(step) == Step::<QueueState, QueueCallView, Result<bool, Error<Q, M>>>::Call(
            QueueState { used: false, stage: Stage::Pop },
            QueueCallView::Pop,
        ),
{
    Step::Call(QueueState { used: false, stage: Stage::Pop }, QueueCall::Pop)
}

/// Goes on working the queue off.
pub fn resume_queue<Q, M>(state: QueueState, answer: QueueAnswer<Q, M>) -> (step: QueueStep<Q, M>)
    requires
        answers(state, answer),
    ensures
        step_view(step) == queue_next(state, answer),
{
    let used: bool = state.used;
    match (state.stage, answer) {
        (Stage::Pop, QueueAnswer::Popped(None)) => Step::Done(Ok(used)),
        (Stage::Pop, QueueAnswer::Popped(Some(chain))) => match chain_buffers(chain) {
            Err(e) => Step::Done(Err(e)),
            Ok((req, rsp)) => Step::Call(
                QueueState { used, stage: Stage::Header { req, rsp } },
                QueueCall::ReadHeader { addr: req.addr },
            ),
        },
        (Stage::Header { req, rsp }, QueueAnswer::Header(Ok(header))) => {
            let said: u32 = le::read_u32(&header, 4);
            let len: u32 = if said < req.len {
                said
            } else {
                req.len
            };
            Step::Call(
                QueueState { used, stage: Stage::Request { len, rsp } },
                QueueCall::ReadRequest { addr: req.addr, len },
            )
        },
        (Stage::Header { .. }, QueueAnswer::Header(Err(e))) => Step::Done(
            Err(Error::GuestMemoryRead(e)),
        ),
        (Stage::Request { rsp, .. }, QueueAnswer::Request(Ok(req))) => Step::Call(
            QueueState { used, stage: Stage::Handle { rsp } },
            QueueCall::Handle { req },
        ),
        (Stage::Request { .. }, QueueAnswer::Request(Err(e))) => Step::Done(
            Err(Error::GuestMemoryRead(e)),
        ),
        (Stage::Handle { rsp }, QueueAnswer::Handled(reply)) => {
            let written: u32 = if (reply.len() as u64) < rsp.len as u64 {
                reply.len() as u32
            } else {
                rsp.len
            };
            let mut cut = reply;
            cut.truncate(written as usize);
            Step::Call(
                QueueState { used, stage: Stage::Write { written } },
                QueueCall::WriteReply { addr: rsp.addr, reply: cut },
            )
        },
        (Stage::Write { written }, QueueAnswer::Written(Ok(_))) => Step::Call(
            QueueState { used, stage: Stage::AddUsed },
            QueueCall::AddUsed { len: written },
        ),
        (Stage::Write { .. }, QueueAnswer::Written(Err(e))) => Step::Done(
            Err(Error::GuestMemoryWrite(e)),
        ),
        (Stage::AddUsed, QueueAnswer::Used(Ok(_))) => Step::Call(
            QueueState { used: true, stage: Stage::Pop },
            QueueCall::Pop,
        ),
        (Stage::AddUsed, QueueAnswer::Used(Err(e))) => Step::Done(Err(Error::QueueAddUsed(e))),
        _ => unreached(),
    }
}

} // verus!
