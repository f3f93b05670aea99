//! What holds of the queue from the guest's kick to its interrupt.

use vstd::prelude::*;

use crate::bo::BoView;
use crate::le;
use crate::npu;
use crate::npu::{
    ActivateAnswer, ActivateCallView, ActivateError, ActivateStage, ActivateStepView, EventAnswer,
    EventCall, EventStep, HandleEventError,
};
use crate::queue;
use crate::queue::{
    Chain, Descriptor, Error, Found, QueueAnswer, QueueCallView, QueueState, Stage,
};
use crate::request::{Answer, StepView};
use crate::request_laws;
use crate::step;
use crate::step::Step;

verus! {

/// What working the queue off does next.
pub type QueueStepView<Q, M> = Step<QueueState, QueueCallView, Result<bool, Error<Q, M>>>;

/// The first step: the queue is looked at, and no chain has been used.
pub open spec fn queue_start<Q, M>() -> QueueStepView<Q, M> {
    Step::Call(QueueState { used: false, stage: Stage::Pop }, QueueCallView::Pop)
}

/// What comes after an answer.
pub open spec fn queue_rule<Q, M>() -> spec_fn(QueueState, QueueAnswer<Q, M>) -> QueueStepView<Q, M> {
    |state: QueueState, answer: QueueAnswer<Q, M>| queue::queue_next(state, answer)
}

/// The step after answers came in.
pub open spec fn queue_run<Q, M>(
    step: QueueStepView<Q, M>,
    answers: Seq<QueueAnswer<Q, M>>,
) -> QueueStepView<Q, M> {
    step::run(queue_rule(), step, answers)
}

/// How many chains were put on the used ring on the way.
pub open spec fn chains_used<Q, M>(
    step: QueueStepView<Q, M>,
    answers: Seq<QueueAnswer<Q, M>>,
) -> nat
    decreases answers.len(),
{
    match step {
        Step::Done(_) => 0,
        Step::Call(state, _) => if answers.len() == 0 {
            0
        } else {
            chains_used(queue::queue_next(state, answers[0]), answers.skip(1)) + match answers[0] {
                QueueAnswer::Used(Ok(_)) => 1nat,
                _ => 0nat,
            }
        },
    }
}

/// How many chains were taken from the queue on the way.
pub open spec fn chains_popped<Q, M>(
    step: QueueStepView<Q, M>,
    answers: Seq<QueueAnswer<Q, M>>,
) -> nat
    decreases answers.len(),
{
    match step {
        Step::Done(_) => 0,
        Step::Call(state, _) => if answers.len() == 0 {
            0
        } else {
            chains_popped(queue::queue_next(state, answers[0]), answers.skip(1)) + match answers[0] {
                QueueAnswer::Popped(Some(_)) => 1nat,
                _ => 0nat,
            }
        },
    }
}

/// The answer with which working the queue off ended, if it did.
pub open spec fn last_answer<Q, M>(
    step: QueueStepView<Q, M>,
    answers: Seq<QueueAnswer<Q, M>>,
) -> Option<QueueAnswer<Q, M>>
    decreases answers.len(),
{
    match step {
        Step::Done(_) => None,
        Step::Call(state, _) => if answers.len() == 0 {
            None
        } else {
            match queue::queue_next(state, answers[0]) {
                Step::Done(_) => Some(answers[0]),
                Step::Call(after, call) => last_answer(Step::Call(after, call), answers.skip(1)),
            }
        },
    }
}

/// Every answer is to the call that is outstanding.
pub open spec fn queue_accepted<Q, M>(
    step: QueueStepView<Q, M>,
    answers: Seq<QueueAnswer<Q, M>>,
) -> bool {
    step::accepted(
        queue_rule(),
        |state: QueueState, answer: QueueAnswer<Q, M>| queue::answers(state, answer),
        step,
        answers,
    )
}

/// The chains that were taken and are not yet on the used ring: the one that is being served.
spec fn in_hand(state: QueueState) -> nat {
    if state.stage is Pop {
        0
    } else {
        1
    }
}

proof fn lemma_used<Q, M>(
    state: QueueState,
    call: QueueCallView,
    answers: Seq<QueueAnswer<Q, M>>,
)
    requires
        queue_accepted(Step::Call(state, call), answers),
    ensures
        ({
            let start: QueueStepView<Q, M> = Step::Call(state, call);
            let used = chains_used(start, answers);
            let popped = chains_popped(start, answers);
            match queue_run(start, answers) {
                Step::Done(Ok(reported)) => {
                    &&& reported == (state.used || used > 0)
                    &&& popped + in_hand(state) == used
                    &&& last_answer(start, answers) == Some(QueueAnswer::<Q, M>::Popped(None))
                },
                Step::Done(Err(_)) => popped + in_hand(state) == used + 1,
                Step::Call(after, _) => {
                    &&& after.used == (state.used || used > 0)
                    &&& popped + in_hand(state) == used + in_hand(after)
                },
            }
        }),
    decreases answers.len(),
{
    reveal_with_fuel(step::run, 2);
    reveal_with_fuel(chains_used, 2);
    reveal_with_fuel(chains_popped, 2);
    if answers.len() > 0 {
        assert(queue::answers(state, answers[0]));
        match queue::queue_next(state, answers[0]) {
            Step::Done(_) => {},
            Step::Call(after, then) => {
                lemma_used(after, then, answers.skip(1));
            },
        }
    }
}

/// Working the queue off succeeds only when the queue is empty, with every chain that was taken from
/// it on the used ring, once, and it ends with `true` if and only if there was one. If it fails, the
/// one chain that it failed on is not on the used ring, and all others are.
pub proof fn law_queue_is_worked_off<Q, M>(answers: Seq<QueueAnswer<Q, M>>)
    requires
        queue_accepted(queue_start::<Q, M>(), answers),
    ensures
        ({
            let start = queue_start::<Q, M>();
            let used = chains_used(start, answers);
            let popped = chains_popped(start, answers);
            match queue_run(start, answers) {
                Step::Done(Ok(reported)) => {
                    &&& last_answer(start, answers) == Some(QueueAnswer::<Q, M>::Popped(None))
                    &&& popped == used
                    &&& reported == (used > 0)
                },
                Step::Done(Err(_)) => popped == used + 1,
                Step::Call(_, _) => used <= popped <= used + 1,
            }
        }),
{
    lemma_used(QueueState { used: false, stage: Stage::Pop }, QueueCallView::Pop, answers);
}

/// A chain is served if and only if it starts with a buffer that the device may only read, followed
/// by one that it may write; a chain that is too short is told from one that is no good.
pub proof fn law_good_chain<Q, M>(chain: Chain)
    ensures
        queue::buffers::<Q, M>(chain) is Ok <==> {
            &&& chain.first matches Found::Valid(req)
            &&& !req.write_only
            &&& chain.second matches Found::Valid(rsp)
            &&& rsp.write_only
        },
        queue::buffers::<Q, M>(chain) == Err::<(Descriptor, Descriptor), Error<Q, M>>(
            Error::DescriptorChainTooShort,
        ) <==> (chain.first is Nothing || chain.first is Valid && chain.second is Nothing),
{
}

/// No more is read than the request's buffer has, nor more than the request says it has; no more is
/// written than the reply's buffer has room for, and a reply that fits is written whole.
pub proof fn law_buffers_are_respected(
    header: Seq<u8>,
    req: Descriptor,
    reply: Seq<u8>,
    rsp: Descriptor,
)
    ensures
        queue::request_len(header, req) <= req.len,
        queue::request_len(header, req) <= le::u32_at(header, 4),
        le::u32_at(header, 4) <= req.len ==> queue::request_len(header, req) == le::u32_at(header, 4),
        queue::reply_len(reply, rsp) <= rsp.len,
        queue::reply_len(reply, rsp) <= reply.len(),
        reply.len() <= rsp.len ==> queue::reply_len(reply, rsp) == reply.len(),
{
}

/// A buffer of sixteen bytes has room for the reply to any request.
pub proof fn law_sixteen_bytes_are_enough(
    bos: Map<u32, BoView>,
    req: Seq<u8>,
    answers: Seq<Answer>,
    rsp: Descriptor,
)
    requires
        request_laws::served_by(bos, req, answers),
        rsp.len >= 16,
    ensures
        request_laws::serve(bos, req, answers).1 matches StepView::Reply(reply) ==> queue::reply_len(
            reply,
            rsp,
        ) == reply.len(),
{
    request_laws::law_every_reply_is_framed(bos, req, answers);
}

/// One chain from beginning to end: the header is read, then as much as it says; what was read is
/// carried out; as much of the reply as there is room for is written; and the chain is put on the
/// used ring with just that length. Then the queue is looked at again.
pub proof fn law_chain_is_served<Q, M>(
    used: bool,
    chain: Chain,
    header: [u8; 8],
    req: Vec<u8>,
    reply: Vec<u8>,
)
    requires
        queue::buffers::<Q, M>(chain) is Ok,
        req@.len() == queue::request_len(header@, queue::buffers::<Q, M>(chain)->Ok_0.0),
    ensures
        ({
            let (d, e) = queue::buffers::<Q, M>(chain)->Ok_0;
            let len = queue::request_len(header@, d);
            let written = queue::reply_len(reply@, e);
            let start: QueueStepView<Q, M> = Step::Call(
                QueueState { used, stage: Stage::Pop },
                QueueCallView::Pop,
            );
            let a = seq![
                QueueAnswer::<Q, M>::Popped(Some(chain)),
                QueueAnswer::Header(Ok(header)),
                QueueAnswer::Request(Ok(req)),
                QueueAnswer::Handled(reply),
                QueueAnswer::Written(Ok(())),
                QueueAnswer::Used(Ok(())),
            ];
            &&& queue_accepted(start, a)
            &&& queue_run(start, a.take(1)) matches Step::Call(_, c1)
            &&& c1 == QueueCallView::ReadHeader { addr: d.addr }
            &&& queue_run(start, a.take(2)) matches Step::Call(_, c2)
            &&& c2 == QueueCallView::ReadRequest { addr: d.addr, len }
            &&& queue_run(start, a.take(3)) matches Step::Call(_, c3)
            &&& c3 == QueueCallView::Handle { req: req@ }
            &&& queue_run(start, a.take(4)) matches Step::Call(_, c4)
            &&& c4 == QueueCallView::WriteReply { addr: e.addr, reply: reply@.take(written as int) }
            &&& queue_run(start, a.take(5)) matches Step::Call(_, c5)
            &&& c5 == QueueCallView::AddUsed { len: written }
            &&& queue_run(start, a) == QueueStepView::<Q, M>::Call(
                QueueState { used: true, stage: Stage::Pop },
                QueueCallView::Pop,
            )
        }),
{
    reveal_with_fuel(step::run, 7);
    reveal_with_fuel(step::accepted, 7);
    let a = seq![
        QueueAnswer::<Q, M>::Popped(Some(chain)),
        QueueAnswer::Header(Ok(header)),
        QueueAnswer::Request(Ok(req)),
        QueueAnswer::Handled(reply),
        QueueAnswer::Written(Ok(())),
        QueueAnswer::Used(Ok(())),
    ];
    let a1 = a.skip(1);
    let a2 = a1.skip(1);
    let a3 = a2.skip(1);
    let a4 = a3.skip(1);
    let a5 = a4.skip(1);
    assert(a1[0] == a[1] && a2[0] == a[2] && a3[0] == a[3] && a4[0] == a[4] && a5[0] == a[5]);
    assert forall|k: int| 0 <= k <= 6 implies #[trigger] a.take(k).len() == k by {}
    assert(a.take(2).skip(1)[0] == a[1]);
    assert(a.take(3).skip(1)[0] == a[1] && a.take(3).skip(1).skip(1)[0] == a[2]);
    assert(a.take(4).skip(1)[0] == a[1] && a.take(4).skip(1).skip(1)[0] == a[2] && a.take(4).skip(
        1,
    ).skip(1).skip(1)[0] == a[3]);
    assert(a.take(5).skip(1)[0] == a[1] && a.take(5).skip(1).skip(1)[0] == a[2] && a.take(5).skip(
        1,
    ).skip(1).skip(1)[0] == a[3] && a.take(5).skip(1).skip(1).skip(1).skip(1)[0] == a[4]);
}

/// A chain's first two descriptors are the request's and the reply's buffer as they stand, if the
/// first is for reading and the second for writing. Else the chain is refused: as too short where a
/// descriptor is missing, and as invalid where one is no good or has the wrong direction.
pub proof fn law_which_buffers<Q, M>(used: bool, chain: Chain)
    ensures
        ({
            let pop = QueueState { used, stage: Stage::Pop };
            let after = queue::queue_next(pop, QueueAnswer::<Q, M>::Popped(Some(chain)));
            let short = QueueStepView::<Q, M>::Done(Err(Error::DescriptorChainTooShort));
            let invalid = QueueStepView::<Q, M>::Done(Err(Error::InvalidDescriptor));
            let found = queue::buffers::<Q, M>(chain);
            let too_short = Err::<(Descriptor, Descriptor), Error<Q, M>>(
                Error::DescriptorChainTooShort,
            );
            let no_good = Err::<(Descriptor, Descriptor), Error<Q, M>>(Error::InvalidDescriptor);
            match (chain.first, chain.second) {
                (Found::Nothing, _) => after == short && found == too_short,
                (Found::Invalid, _) => after == invalid && found == no_good,
                (Found::Valid(_), Found::Nothing) => after == short && found == too_short,
                (Found::Valid(_), Found::Invalid) => after == invalid && found == no_good,
                (Found::Valid(d), Found::Valid(e)) => if !d.write_only && e.write_only {
                    &&& found == Ok::<_, Error<Q, M>>((d, e))
                    &&& after == QueueStepView::<Q, M>::Call(
                        QueueState { used, stage: Stage::Header { req: d, rsp: e } },
                        QueueCallView::ReadHeader { addr: d.addr },
                    )
                } else {
                    after == invalid && found == no_good
                },
            }
        }),
{
}

/// As much of a request is read as its header's second word says and its buffer has, whichever is
/// less, from where the buffer is; and as much of a reply is written as there is of it and its buffer
/// has room for, whichever is less, from the reply's first byte on, to where the buffer is. The chain
/// is put on the used ring with just that length.
pub proof fn law_lengths<Q, M>(
    used: bool,
    header: [u8; 8],
    d: Descriptor,
    e: Descriptor,
    req: Vec<u8>,
    reply: Vec<u8>,
)
    ensures
        ({
            let said = le::u32_at(header@, 4);
            let asked = QueueState { used, stage: Stage::Header { req: d, rsp: e } };
            let read = queue::queue_next(asked, QueueAnswer::<Q, M>::Header(Ok(header)));
            &&& read matches Step::Call(
                QueueState { used: u1, stage: Stage::Request { len: l1, rsp: r1 } },
                QueueCallView::ReadRequest { addr, len },
            )
            &&& u1 == used && l1 == len && r1 == e
            &&& addr == d.addr
            &&& len <= said && len <= d.len && (len == said || len == d.len)
            &&& queue::queue_next(
                QueueState { used, stage: Stage::Request { len, rsp: e } },
                QueueAnswer::<Q, M>::Request(Ok(req)),
            ) == QueueStepView::<Q, M>::Call(
                QueueState { used, stage: Stage::Handle { rsp: e } },
                QueueCallView::Handle { req: req@ },
            )
            &&& queue::queue_next(
                QueueState { used, stage: Stage::Handle { rsp: e } },
                QueueAnswer::<Q, M>::Handled(reply),
            ) matches Step::Call(
                QueueState { used: u2, stage: Stage::Write { written } },
                QueueCallView::WriteReply { addr: to, reply: bytes },
            )
            &&& u2 == used && to == e.addr
            &&& bytes.len() == written && written <= e.len && written <= reply@.len() && (written
                == e.len || written == reply@.len())
            &&& forall|i: int| 0 <= i < written ==> #[trigger] bytes[i] == reply@[i]
            &&& queue::queue_next(
                QueueState { used, stage: Stage::Write { written } },
                QueueAnswer::<Q, M>::Written(Ok(())),
            ) == QueueStepView::<Q, M>::Call(
                QueueState { used, stage: Stage::AddUsed },
                QueueCallView::AddUsed { len: written },
            )
        }),
{
}

/// When the queue is looked at and is empty, working it off ends and tells whether a chain was used;
/// once one is on the used ring, the queue is looked at again; and whatever goes wrong ends it with
/// that error: reading the header or the request, writing the reply, or putting the chain on the ring.
pub proof fn law_queue_ends<Q, M>(
    used: bool,
    d: Descriptor,
    e: Descriptor,
    len: u32,
    m: M,
    q: Q,
)
    ensures
        queue::queue_next(
            QueueState { used, stage: Stage::Pop },
            QueueAnswer::<Q, M>::Popped(None),
        ) == QueueStepView::<Q, M>::Done(Ok(used)),
        queue::queue_next(
            QueueState { used, stage: Stage::AddUsed },
            QueueAnswer::<Q, M>::Used(Ok(())),
        ) == QueueStepView::<Q, M>::Call(
            QueueState { used: true, stage: Stage::Pop },
            QueueCallView::Pop,
        ),
        queue::queue_next(
            QueueState { used, stage: Stage::Header { req: d, rsp: e } },
            QueueAnswer::<Q, M>::Header(Err(m)),
        ) == QueueStepView::<Q, M>::Done(Err(Error::GuestMemoryRead(m))),
        queue::queue_next(
            QueueState { used, stage: Stage::Request { len, rsp: e } },
            QueueAnswer::<Q, M>::Request(Err(m)),
        ) == QueueStepView::<Q, M>::Done(Err(Error::GuestMemoryRead(m))),
        queue::queue_next(
            QueueState { used, stage: Stage::Write { written: len } },
            QueueAnswer::<Q, M>::Written(Err(m)),
        ) == QueueStepView::<Q, M>::Done(Err(Error::GuestMemoryWrite(m))),
        queue::queue_next(
            QueueState { used, stage: Stage::AddUsed },
            QueueAnswer::<Q, M>::Used(Err(q)),
        ) == QueueStepView::<Q, M>::Done(Err(Error::QueueAddUsed(q))),
{
}

/// Every answer of the right kind is taken; a request that was read must be as long as was asked for.
pub proof fn law_queue_takes_any_answer<Q, M>(
    used: bool,
    d: Descriptor,
    e: Descriptor,
    len: u32,
    popped: Option<Chain>,
    header: Result<[u8; 8], M>,
    req: Result<Vec<u8>, M>,
    reply: Vec<u8>,
    written: Result<(), M>,
    ring: Result<(), Q>,
)
    requires
        req matches Ok(bytes) ==> bytes@.len() == len,
    ensures
        queue::answers(
            QueueState { used, stage: Stage::Pop },
            QueueAnswer::<Q, M>::Popped(popped),
        ),
        queue::answers(
            QueueState { used, stage: Stage::Header { req: d, rsp: e } },
            QueueAnswer::<Q, M>::Header(header),
        ),
        queue::answers(
            QueueState { used, stage: Stage::Request { len, rsp: e } },
            QueueAnswer::<Q, M>::Request(req),
        ),
        queue::answers(
            QueueState { used, stage: Stage::Handle { rsp: e } },
            QueueAnswer::<Q, M>::Handled(reply),
        ),
        queue::answers(
            QueueState { used, stage: Stage::Write { written: len } },
            QueueAnswer::<Q, M>::Written(written),
        ),
        queue::answers(
            QueueState { used, stage: Stage::AddUsed },
            QueueAnswer::<Q, M>::Used(ring),
        ),
{
}

// ---- events ----

/// The step after answers about an event came in.
pub open spec fn event_run<E, P, S>(
    step: EventStep<E, P, S>,
    answers: Seq<EventAnswer<E, P, S>>,
) -> EventStep<E, P, S> {
    step::run(
        |call: EventCall, answer: EventAnswer<E, P, S>| npu::event_next(answer),
        step,
        answers,
    )
}

/// When the guest has made chains available and the queue was worked off, the guest is told if and
/// only if a chain was used; and whatever goes wrong ends the event with that error.
pub proof fn law_guest_is_told<E, P, S>(data: u64, avail: u16, used: bool, e: E, p: P, s: S)
    requires
        data % 0x1_0000 == avail,
    ensures
        ({
            let start = npu::event_start::<E, P, S>(data, avail);
            let read = EventAnswer::<E, P, S>::Read(Ok(()));
            let tell = EventCall::SignalUsedQueue { queue: 0 };
            &&& event_run(start, seq![read]) == EventStep::<E, P, S>::Call(
                EventCall::ProcessQueue,
                EventCall::ProcessQueue,
            )
            &&& event_run(start, seq![read, EventAnswer::Processed(Ok(used))]) == if used {
                EventStep::<E, P, S>::Call(tell, tell)
            } else {
                EventStep::<E, P, S>::Done(Ok(()))
            }
            &&& event_run(
                start,
                seq![read, EventAnswer::Processed(Ok(true)), EventAnswer::Signalled(Ok(()))],
            ) == EventStep::<E, P, S>::Done(Ok(()))
            &&& event_run(start, seq![EventAnswer::Read(Err(e))]) == EventStep::<E, P, S>::Done(
                Err(HandleEventError::QueueEvent(e)),
            )
            &&& event_run(start, seq![read, EventAnswer::Processed(Err(p))]) == EventStep::<
                E,
                P,
                S,
            >::Done(Err(HandleEventError::ProcessQueue(p)))
            &&& event_run(
                start,
                seq![read, EventAnswer::Processed(Ok(true)), EventAnswer::Signalled(Err(s))],
            ) == EventStep::<E, P, S>::Done(Err(HandleEventError::Signal(s)))
        }),
{
    reveal_with_fuel(step::run, 4);
    let read = EventAnswer::<E, P, S>::Read(Ok(()));
    let two = seq![read, EventAnswer::Processed(Ok(used))];
    let bad = seq![read, EventAnswer::Processed(Err(p))];
    let told = seq![read, EventAnswer::Processed(Ok(true)), EventAnswer::Signalled(Ok(()))];
    let untold = seq![read, EventAnswer::Processed(Ok(true)), EventAnswer::Signalled(Err(s))];
    assert(two.skip(1)[0] == two[1] && bad.skip(1)[0] == bad[1]);
    assert(told.skip(1)[0] == told[1] && told.skip(1).skip(1)[0] == told[2]);
    assert(untold.skip(1)[0] == untold[1] && untold.skip(1).skip(1)[0] == untold[2]);
}

/// Any other event is refused, whatever stands in the upper bits.
pub proof fn law_other_events_are_refused<E, P, S>(data: u64, avail: u16)
    requires
        data % 0x1_0000 != avail,
    ensures
        npu::event_start::<E, P, S>(data, avail) == EventStep::<E, P, S>::Done(
            Err(HandleEventError::Unexpected((data % 0x1_0000) as u16)),
        ),
{
}

/// The low sixteen bits tell the event, whatever stands above them; the one of the queue is read
/// first. Every answer of the right kind is taken.
pub proof fn law_event_is_read_first<E, P, S>(
    data: u64,
    avail: u16,
    read: Result<(), E>,
    processed: Result<bool, P>,
    told: Result<(), S>,
    queue: u16,
)
    ensures
        npu::event_start::<E, P, S>(data, avail) == EventStep::<E, P, S>::Call(
            EventCall::ReadQueueEvent,
            EventCall::ReadQueueEvent,
        ) <==> data % 0x1_0000 == avail,
        npu::event_answers(EventCall::ReadQueueEvent, EventAnswer::<E, P, S>::Read(read)),
        npu::event_answers(EventCall::ProcessQueue, EventAnswer::<E, P, S>::Processed(processed)),
        npu::event_answers(
            EventCall::SignalUsedQueue { queue },
            EventAnswer::<E, P, S>::Signalled(told),
        ),
{
}

// ---- activation ----

/// The step after answers about the activation of a device of that id and with that file came in.
pub open spec fn activate_run<E>(
    id: Seq<char>,
    path: Seq<u8>,
    answers: Seq<ActivateAnswer<E>>,
) -> ActivateStepView<E> {
    step::run(
        |stage: ActivateStage, answer: ActivateAnswer<E>|
            npu::activate_next(id, path, stage, answer),
        Step::Call(ActivateStage::Common, ActivateCallView::Common),
        answers,
    )
}

/// The device is active if and only if the shared parts went through, the host's file was opened
/// and the worker was started, in this order; the worker has the device's id for its name, serves
/// queue 0, is not confined and starts without buffer objects. A file that cannot be opened is
/// reported as a bad activation, and no worker is started then.
pub proof fn law_activation<E>(id: Seq<char>, path: Seq<u8>, e: E, opened: bool)
    ensures
        ({
            let ok = ActivateAnswer::<E>::Common(Ok(()));
            let bad = ActivateAnswer::Common(Err(e));
            let failed = ActivateStepView::<E>::Done(Err(ActivateError::Common(e)));
            &&& activate_run(id, path, seq![bad]) == failed
            &&& activate_run(id, path, seq![ok, bad]) == failed
            &&& activate_run(id, path, seq![ok, ok]) == ActivateStepView::<E>::Call(
                ActivateStage::OpenAccel,
                ActivateCallView::OpenAccel { path },
            )
            &&& activate_run(id, path, seq![ok, ok, ActivateAnswer::Opened(opened)]) == if opened {
                ActivateStepView::<E>::Call(
                    ActivateStage::SpawnWorker,
                    ActivateCallView::SpawnWorker {
                        name: id,
                        queue: 0,
                        confined: false,
                        bos: Map::empty(),
                    },
                )
            } else {
                ActivateStepView::<E>::Done(Err(ActivateError::BadActivate))
            }
            &&& activate_run(id, path, seq![ok, ok, ActivateAnswer::Opened(true), bad]) == failed
            &&& activate_run(id, path, seq![ok, ok, ActivateAnswer::Opened(true), ok])
                == ActivateStepView::<E>::Done(Ok(()))
        }),
{
    reveal_with_fuel(step::run, 5);
    let ok = ActivateAnswer::<E>::Common(Ok(()));
    let bad = ActivateAnswer::<E>::Common(Err(e));
    let a = seq![ok, bad];
    let b = seq![ok, ok];
    let c = seq![ok, ok, ActivateAnswer::Opened(opened)];
    let d = seq![ok, ok, ActivateAnswer::Opened(true), bad];
    let f = seq![ok, ok, ActivateAnswer::Opened(true), ok];
    assert(a.skip(1)[0] == a[1] && b.skip(1)[0] == b[1]);
    assert(c.skip(1)[0] == c[1] && c.skip(1).skip(1)[0] == c[2]);
    assert(d.skip(1)[0] == d[1] && d.skip(1).skip(1)[0] == d[2] && d.skip(1).skip(1).skip(1)[0]
        == d[3]);
    assert(f.skip(1)[0] == f[1] && f.skip(1).skip(1)[0] == f[2] && f.skip(1).skip(1).skip(1)[0]
        == f[3]);
}

/// Activation goes on as long as all goes well, one call after the other, and every answer of the right
/// kind is taken.
pub proof fn law_activation_in_order<E>(
    id: Seq<char>,
    path: Seq<u8>,
    r: Result<(), E>,
    opened: bool,
)
    ensures
        ({
            let ok = ActivateAnswer::<E>::Common(Ok(()));
            &&& npu::activate_next(id, path, ActivateStage::Common, ok) == ActivateStepView::<
                E,
            >::Call(ActivateStage::DupEventFds, ActivateCallView::DupEventFds)
            &&& npu::activate_next(id, path, ActivateStage::DupEventFds, ok) == ActivateStepView::<
                E,
            >::Call(ActivateStage::OpenAccel, ActivateCallView::OpenAccel { path })
            &&& npu::activate_next(
                id,
                path,
                ActivateStage::OpenAccel,
                ActivateAnswer::<E>::Opened(true),
            ) matches Step::Call(
                stage,
                ActivateCallView::SpawnWorker { name, queue, confined, bos },
            )
            &&& stage == ActivateStage::SpawnWorker
            &&& name == id && queue == 0 && !confined && bos == Map::<u32, BoView>::empty()
            &&& npu::activate_next(id, path, ActivateStage::SpawnWorker, ok) == ActivateStepView::<
                E,
            >::Done(Ok(()))
        }),
        npu::activate_answers(ActivateStage::Common, ActivateAnswer::Common(r)),
        npu::activate_answers(ActivateStage::DupEventFds, ActivateAnswer::Common(r)),
        npu::activate_answers(ActivateStage::OpenAccel, ActivateAnswer::<E>::Opened(opened)),
        npu::activate_answers(ActivateStage::SpawnWorker, ActivateAnswer::Common(r)),
{
}

} // verus!
