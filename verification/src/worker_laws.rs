//! What holds of the worker from beginning to end.

use vstd::prelude::*;

use crate::bo::BoView;
use crate::npu;
use crate::npu::{EventAnswer, EventCall, HandleEventError};
use crate::queue;
use crate::queue::{Chain, Descriptor, QueueAnswer, QueueCallView, QueueState, Stage};
use crate::request;
use crate::request::{Answer, PendingView, StepView};
use crate::request_laws;
use crate::step::Step;
use crate::worker;
use crate::worker::{WorkerAnswer, WorkerCallView, WorkerStateView, WorkerStepView};

verus! {

/// The table and the step after answers came in, one for each call, until the event is handled.
pub open spec fn worker_run<E, Q, M, S>(
    bos: Map<u32, BoView>,
    step: WorkerStepView<E, Q, M, S>,
    answers: Seq<WorkerAnswer<E, Q, M, S>>,
) -> (Map<u32, BoView>, WorkerStepView<E, Q, M, S>)
    decreases answers.len(),
{
    match step {
        Step::Done(_) => (bos, step),
        Step::Call(state, _) => if answers.len() == 0 {
            (bos, step)
        } else {
            let after = worker::worker_next(bos, state, answers[0]);
            worker_run(after.0, after.1, answers.skip(1))
        },
    }
}

/// Every answer that is used fits.
pub open spec fn worker_accepted<E, Q, M, S>(
    bos: Map<u32, BoView>,
    step: WorkerStepView<E, Q, M, S>,
    answers: Seq<WorkerAnswer<E, Q, M, S>>,
) -> bool
    decreases answers.len(),
{
    match step {
        Step::Done(_) => true,
        Step::Call(state, _) => answers.len() == 0 || {
            let after = worker::worker_next(bos, state, answers[0]);
            &&& worker::worker_answers(state, answers[0])
            &&& worker_accepted(after.0, after.1, answers.skip(1))
        },
    }
}

/// Answers about a request, as the worker gets them.
pub open spec fn hosts<E, Q, M, S>(answers: Seq<Answer>) -> Seq<WorkerAnswer<E, Q, M, S>> {
    answers.map_values(|answer: Answer| WorkerAnswer::<E, Q, M, S>::Host(answer))
}

/// The request is answered with the last of the answers, and not before.
pub open spec fn answered_by(bos: Map<u32, BoView>, step: StepView, answers: Seq<Answer>) -> bool
    decreases answers.len(),
{
    match step {
        StepView::Reply(_) => answers.len() == 0,
        StepView::Call(pending, _) => answers.len() > 0 && {
            let after = request::next(bos, pending, answers[0]);
            answered_by(after.0, after.1, answers.skip(1))
        },
    }
}

proof fn lemma_request_run<E, Q, M, S>(
    bos: Map<u32, BoView>,
    queue: QueueState,
    step: StepView,
    answers: Seq<Answer>,
    rest: Seq<WorkerAnswer<E, Q, M, S>>,
)
    requires
        queue.stage is Handle,
        answered_by(bos, step, answers),
    ensures
        request_laws::run(bos, step, answers).1 is Reply,
        worker_run(bos, worker::request_step(queue, step), hosts(answers) + rest) == worker_run(
            request_laws::run(bos, step, answers).0,
            worker::request_step(queue, request_laws::run(bos, step, answers).1),
            rest,
        ),
    decreases answers.len(),
{
    match step {
        StepView::Reply(_) => {
            assert(hosts::<E, Q, M, S>(answers) + rest =~= rest);
        },
        StepView::Call(pending, _) => {
            let after = request::next(bos, pending, answers[0]);
            lemma_request_run(after.0, queue, after.1, answers.skip(1), rest);
            let all = hosts::<E, Q, M, S>(answers) + rest;
            assert(all[0] == WorkerAnswer::<E, Q, M, S>::Host(answers[0]));
            assert(all.skip(1) =~= hosts(answers.skip(1)) + rest);
        },
    }
}

/// Reading a request from a good chain brings the worker to carrying it out.
proof fn lemma_read<E, Q, M, S>(
    bos: Map<u32, BoView>,
    used: bool,
    chain: Chain,
    header: [u8; 8],
    req: Vec<u8>,
    rest: Seq<WorkerAnswer<E, Q, M, S>>,
)
    requires
        queue::buffers::<Q, M>(chain) is Ok,
    ensures
        ({
            let pop = Step::Call(
                WorkerStateView::Queue(QueueState { used, stage: Stage::Pop }),
                WorkerCallView::Queue(QueueCallView::Pop),
            );
            let read = seq![
                WorkerAnswer::<E, Q, M, S>::Queue(QueueAnswer::Popped(Some(chain))),
                WorkerAnswer::Queue(QueueAnswer::Header(Ok(header))),
                WorkerAnswer::Queue(QueueAnswer::Request(Ok(req))),
            ];
            let rsp = queue::buffers::<Q, M>(chain)->Ok_0.1;
            let first = request::start(bos, req@);
            worker_run(bos, pop, read + rest) == worker_run(
                first.0,
                worker::request_step(QueueState { used, stage: Stage::Handle { rsp } }, first.1),
                rest,
            )
        }),
{
    let read = seq![
        WorkerAnswer::<E, Q, M, S>::Queue(QueueAnswer::Popped(Some(chain))),
        WorkerAnswer::Queue(QueueAnswer::Header(Ok(header))),
        WorkerAnswer::Queue(QueueAnswer::Request(Ok(req))),
    ];
    let all = read + rest;
    reveal_with_fuel(worker_run, 4);
    assert(all.skip(1)[0] == read[1]);
    assert(all.skip(1).skip(1)[0] == read[2]);
    assert(all.skip(1).skip(1).skip(1) =~= rest);
}

/// One chain from beginning to end: what is written to the guest is the reply to the request that
/// was read from it, cut to the room that there is; the chain is put on the used ring with that
/// length; and the table is what the request makes of it.
pub proof fn law_request_is_answered<E, Q, M, S>(
    bos: Map<u32, BoView>,
    used: bool,
    chain: Chain,
    header: [u8; 8],
    req: Vec<u8>,
    answers: Seq<Answer>,
)
    requires
        queue::buffers::<Q, M>(chain) is Ok,
        answered_by(request::start(bos, req@).0, request::start(bos, req@).1, answers),
    ensures
        ({
            let rsp = queue::buffers::<Q, M>(chain)->Ok_0.1;
            let served = request_laws::serve(bos, req@, answers);
            let pop = Step::Call(
                WorkerStateView::Queue(QueueState { used, stage: Stage::Pop }),
                WorkerCallView::Queue(QueueCallView::Pop),
            );
            let read = seq![
                WorkerAnswer::<E, Q, M, S>::Queue(QueueAnswer::Popped(Some(chain))),
                WorkerAnswer::Queue(QueueAnswer::Header(Ok(header))),
                WorkerAnswer::Queue(QueueAnswer::Request(Ok(req))),
            ];
            let wrote = seq![
                WorkerAnswer::<E, Q, M, S>::Queue(QueueAnswer::Written(Ok(()))),
                WorkerAnswer::Queue(QueueAnswer::Used(Ok(()))),
            ];
            &&& served.1 matches StepView::Reply(reply)
            &&& worker_run(bos, pop, read + hosts(answers)).0 == served.0
            &&& worker_run(bos, pop, read + hosts(answers)).1 matches Step::Call(_, write)
            &&& write == WorkerCallView::Queue(
                QueueCallView::WriteReply {
                    addr: rsp.addr,
                    reply: reply.take(queue::reply_len(reply, rsp) as int),
                },
            )
            &&& worker_run(bos, pop, read + hosts(answers) + wrote.take(1)).1 matches Step::Call(
                _,
                add,
            )
            &&& add == WorkerCallView::Queue(
                QueueCallView::AddUsed { len: queue::reply_len(reply, rsp) },
            )
            &&& worker_run(bos, pop, read + hosts(answers) + wrote) == (
                served.0,
                WorkerStepView::<E, Q, M, S>::Call(
                    WorkerStateView::Queue(QueueState { used: true, stage: Stage::Pop }),
                    WorkerCallView::Queue(QueueCallView::Pop),
                ),
            )
        }),
{
    let none = Seq::<WorkerAnswer<E, Q, M, S>>::empty();
    let wrote = seq![
        WorkerAnswer::<E, Q, M, S>::Queue(QueueAnswer::Written(Ok(()))),
        WorkerAnswer::Queue(QueueAnswer::Used(Ok(()))),
    ];
    let one = wrote.take(1);
    lemma_read(bos, used, chain, header, req, hosts(answers) + none);
    lemma_read(bos, used, chain, header, req, hosts(answers) + one);
    lemma_read(bos, used, chain, header, req, hosts(answers) + wrote);
    let first = request::start(bos, req@);
    let rsp = queue::buffers::<Q, M>(chain)->Ok_0.1;
    let waiting = QueueState { used, stage: Stage::Handle { rsp } };
    lemma_request_run(first.0, waiting, first.1, answers, none);
    lemma_request_run(first.0, waiting, first.1, answers, one);
    lemma_request_run(first.0, waiting, first.1, answers, wrote);
    let read = seq![
        WorkerAnswer::<E, Q, M, S>::Queue(QueueAnswer::Popped(Some(chain))),
        WorkerAnswer::Queue(QueueAnswer::Header(Ok(header))),
        WorkerAnswer::Queue(QueueAnswer::Request(Ok(req))),
    ];
    assert(read + hosts(answers) =~= read + (hosts(answers) + none));
    assert(read + hosts(answers) + one =~= read + (hosts(answers) + one));
    assert(read + hosts(answers) + wrote =~= read + (hosts(answers) + wrote));
    reveal_with_fuel(worker_run, 3);
    assert(wrote.skip(1)[0] == wrote[1]);
}

/// The copy that a step of the worker asks for, if it does, stays within a mapping of the table.
pub open spec fn worker_copy_within<E, Q, M, S>(
    bos: Map<u32, BoView>,
    step: WorkerStepView<E, Q, M, S>,
) -> bool {
    match step {
        Step::Call(
            WorkerStateView::Host { pending, .. },
            WorkerCallView::Host(call),
        ) => request_laws::copy_within(bos, StepView::Call(pending, call)),
        Step::Call(_, WorkerCallView::Host(_)) => false,
        _ => true,
    }
}

proof fn lemma_worker_step<E, Q, M, S>(
    bos: Map<u32, BoView>,
    state: WorkerStateView,
    answer: WorkerAnswer<E, Q, M, S>,
)
    requires
        worker::worker_can_resume(bos, state),
        worker::worker_answers(state, answer),
    ensures
        ({
            let after = worker::worker_next(bos, state, answer);
            &&& worker::worker_step_can_resume(after.0, after.1)
            &&& worker_copy_within(after.0, after.1)
        }),
{
}

proof fn lemma_worker_stays<E, Q, M, S>(
    bos: Map<u32, BoView>,
    step: WorkerStepView<E, Q, M, S>,
    answers: Seq<WorkerAnswer<E, Q, M, S>>,
)
    requires
        worker::worker_step_can_resume(bos, step),
        worker_copy_within(bos, step),
        worker_accepted(bos, step, answers),
    ensures
        ({
            let after = worker_run(bos, step, answers);
            &&& worker::worker_step_can_resume(after.0, after.1)
            &&& worker_copy_within(after.0, after.1)
        }),
    decreases answers.len(),
{
    if let Step::Call(state, call) = step {
        if answers.len() > 0 {
            let after = worker::worker_next(bos, state, answers[0]);
            lemma_worker_step(bos, state, answers[0]);
            lemma_worker_stays(after.0, after.1, answers.skip(1));
        }
    }
}

/// The worker never gets stuck, and whatever the guest and the host do, nothing is copied to or from
/// memory that lies outside of a buffer object of the guest.
pub proof fn law_worker_stays_in_the_mappings<E, Q, M, S>(
    bos: Map<u32, BoView>,
    data: u64,
    avail: u16,
    answers: Seq<WorkerAnswer<E, Q, M, S>>,
)
    requires
        worker_accepted(
            bos,
            worker::event_step(npu::event_start::<E, queue::Error<Q, M>, S>(data, avail)),
            answers,
        ),
    ensures
        ({
            let first = worker::event_step::<E, Q, M, S>(npu::event_start(data, avail));
            let after = worker_run(bos, first, answers);
            &&& worker::worker_step_can_resume(after.0, after.1)
            &&& worker_copy_within(after.0, after.1)
        }),
{
    let first = worker::event_step::<E, Q, M, S>(npu::event_start(data, avail));
    lemma_worker_stays(bos, first, answers);
}

/// The worker on events: it reads the queue's event first, then looks at the queue; when the queue is
/// worked off it tells the guest if a chain was used, and is done if none was; and whatever goes wrong
/// ends the event with that error. The table does not change.
pub proof fn law_worker_handles_events<E, Q, M, S>(
    bos: Map<u32, BoView>,
    data: u64,
    avail: u16,
    used: bool,
    e: E,
    s: S,
    queue: u16,
)
    ensures
        ({
            let first = worker::event_step::<E, Q, M, S>(npu::event_start(data, avail));
            let read = WorkerStateView::Event(EventCall::ReadQueueEvent);
            let tell = EventCall::SignalUsedQueue { queue: 0 };
            let look = QueueState { used, stage: Stage::Pop };
            &&& data % 0x1_0000 == avail ==> first == WorkerStepView::<E, Q, M, S>::Call(
                read,
                WorkerCallView::Event(EventCall::ReadQueueEvent),
            )
            &&& data % 0x1_0000 != avail ==> first == WorkerStepView::<E, Q, M, S>::Done(
                Err(HandleEventError::Unexpected((data % 0x1_0000) as u16)),
            )
            &&& worker::worker_next(
                bos,
                read,
                WorkerAnswer::<E, Q, M, S>::Event(EventAnswer::Read(Ok(()))),
            ) == (
                bos,
                WorkerStepView::<E, Q, M, S>::Call(
                    WorkerStateView::Queue(QueueState { used: false, stage: Stage::Pop }),
                    WorkerCallView::Queue(QueueCallView::Pop),
                ),
            )
            &&& worker::worker_next(
                bos,
                read,
                WorkerAnswer::<E, Q, M, S>::Event(EventAnswer::Read(Err(e))),
            ) == (bos, WorkerStepView::<E, Q, M, S>::Done(Err(HandleEventError::QueueEvent(e))))
            &&& worker::worker_next(
                bos,
                WorkerStateView::Queue(look),
                WorkerAnswer::<E, Q, M, S>::Queue(QueueAnswer::Popped(None)),
            ) == (
                bos,
                if used {
                    WorkerStepView::<E, Q, M, S>::Call(
                        WorkerStateView::Event(tell),
                        WorkerCallView::Event(tell),
                    )
                } else {
                    WorkerStepView::<E, Q, M, S>::Done(Ok(()))
                },
            )
            &&& worker::worker_next(
                bos,
                WorkerStateView::Event(EventCall::SignalUsedQueue { queue }),
                WorkerAnswer::<E, Q, M, S>::Event(EventAnswer::Signalled(Ok(()))),
            ) == (bos, WorkerStepView::<E, Q, M, S>::Done(Ok(())))
            &&& worker::worker_next(
                bos,
                WorkerStateView::Event(EventCall::SignalUsedQueue { queue }),
                WorkerAnswer::<E, Q, M, S>::Event(EventAnswer::Signalled(Err(s))),
            ) == (bos, WorkerStepView::<E, Q, M, S>::Done(Err(HandleEventError::Signal(s))))
        }),
{
}

/// The worker on the queue: what the queue does next is what the worker does next; a request that was
/// read is carried out, and whatever stops the queue stops the event.
pub proof fn law_worker_follows_the_queue<E, Q, M, S>(
    bos: Map<u32, BoView>,
    state: QueueState,
    answer: QueueAnswer<Q, M>,
)
    ensures
        ({
            let after = worker::worker_next(
                bos,
                WorkerStateView::Queue(state),
                WorkerAnswer::<E, Q, M, S>::Queue(answer),
            );
            match queue::queue_next(state, answer) {
                Step::Done(Err(p)) => after == (
                    bos,
                    WorkerStepView::<E, Q, M, S>::Done(Err(HandleEventError::ProcessQueue(p))),
                ),
                Step::Done(Ok(told)) => after.0 == bos && (after.1 is Done <==> !told),
                Step::Call(then, QueueCallView::Handle { req }) => {
                    let first = request::start(bos, req);
                    &&& after.0 == first.0
                    &&& first.1 matches StepView::Call(pending, call) ==> after.1
                        == WorkerStepView::<E, Q, M, S>::Call(
                        WorkerStateView::Host { queue: then, pending },
                        WorkerCallView::Host(call),
                    )
                },
                Step::Call(then, call) => after == (
                    bos,
                    WorkerStepView::<E, Q, M, S>::Call(
                        WorkerStateView::Queue(then),
                        WorkerCallView::Queue(call),
                    ),
                ),
            }
        }),
{
}

/// The worker on a request: what the request does next is what the worker does next, and its reply is
/// written to the buffer that waits for it, as much as there is of it and as there is room for.
pub proof fn law_worker_follows_the_request<E, Q, M, S>(
    bos: Map<u32, BoView>,
    used: bool,
    rsp: Descriptor,
    pending: PendingView,
    answer: Answer,
)
    ensures
        ({
            let queue = QueueState { used, stage: Stage::Handle { rsp } };
            let next = request::next(bos, pending, answer);
            let after = worker::worker_next(
                bos,
                WorkerStateView::Host { queue, pending },
                WorkerAnswer::<E, Q, M, S>::Host(answer),
            );
            &&& after.0 == next.0
            &&& match next.1 {
                StepView::Call(then, call) => after.1 == WorkerStepView::<E, Q, M, S>::Call(
                    WorkerStateView::Host { queue, pending: then },
                    WorkerCallView::Host(call),
                ),
                StepView::Reply(reply) => {
                    &&& after.1 matches Step::Call(
                        WorkerStateView::Queue(QueueState { used: u, stage: Stage::Write { written } }),
                        WorkerCallView::Queue(QueueCallView::WriteReply { addr, reply: bytes }),
                    )
                    &&& u == used && addr == rsp.addr
                    &&& written <= rsp.len && written <= reply.len()
                    &&& written == rsp.len || written == reply.len()
                    &&& bytes == reply.take(written as int)
                },
            }
        }),
{
}

/// A request that is answered at once has its reply written in the same way.
pub proof fn law_immediate_reply<E, Q, M, S>(
    bos: Map<u32, BoView>,
    used: bool,
    len: u32,
    rsp: Descriptor,
    req: Vec<u8>,
)
    ensures
        ({
            let after = worker::worker_next(
                bos,
                WorkerStateView::Queue(QueueState { used, stage: Stage::Request { len, rsp } }),
                WorkerAnswer::<E, Q, M, S>::Queue(QueueAnswer::Request(Ok(req))),
            );
            request::start(bos, req@).1 matches StepView::Reply(reply) ==> {
                &&& after.1 matches Step::Call(
                    WorkerStateView::Queue(QueueState { used: u, stage: Stage::Write { written } }),
                    WorkerCallView::Queue(QueueCallView::WriteReply { addr, reply: bytes }),
                )
                &&& u == used && addr == rsp.addr
                &&& written <= rsp.len && written <= reply.len()
                &&& written == rsp.len || written == reply.len()
                &&& bytes == reply.take(written as int)
            }
        }),
{
}

/// The worker takes what the event, the queue and the request take, where it works on them.
pub proof fn law_worker_takes_their_answers<E, Q, M, S>(
    bos: Map<u32, BoView>,
    call: EventCall,
    event: EventAnswer<E, queue::Error<Q, M>, S>,
    state: QueueState,
    answer: QueueAnswer<Q, M>,
    pending: PendingView,
    host: Answer,
)
    ensures
        npu::event_answers(call, event) ==> worker::worker_answers(
            WorkerStateView::Event(call),
            WorkerAnswer::<E, Q, M, S>::Event(event),
        ),
        queue::answers(state, answer) ==> worker::worker_answers(
            WorkerStateView::Queue(state),
            WorkerAnswer::<E, Q, M, S>::Queue(answer),
        ),
        request::answers(pending, host) ==> worker::worker_answers(
            WorkerStateView::Host { queue: state, pending },
            WorkerAnswer::<E, Q, M, S>::Host(host),
        ),
        call !is ProcessQueue ==> worker::worker_can_resume(bos, WorkerStateView::Event(call)),
        state.stage !is Handle ==> worker::worker_can_resume(bos, WorkerStateView::Queue(state)),
        state.stage is Handle && request::can_resume(bos, pending) ==> worker::worker_can_resume(
            bos,
            WorkerStateView::Host { queue: state, pending },
        ),
{
}

} // verus!
