//! The device's worker: from an event of the loop through the queue and its requests to the guest's
//! interrupt, as one procedure.

use vstd::prelude::*;
use vstd::pervasive::unreached;

use crate::bo::BoView;
use crate::npu;
use crate::npu::{EventAnswer, EventCall, EventStep, HandleEventError};
use crate::queue;
use crate::queue::{Error, QueueAnswer, QueueCall, QueueCallView, QueueState, QueueStep, Stage};
use crate::request;
use crate::request::{Answer, HostCall, HostCallView, NpuEpollHandler, Pending, PendingView, StepView};
use crate::step::Step;

verus! {

/// Work of the worker.
#[derive(Debug)]
pub enum WorkerCall {
    /// Work on the event itself; never on the queue.
    Event(EventCall),
    /// Work on the queue; never on a request.
    Queue(QueueCall),
    /// Work for a request.
    Host(HostCall),
}

/// What a `WorkerCall` says.
pub ghost enum WorkerCallView {
    Event(EventCall),
    Queue(QueueCallView),
    Host(HostCallView),
}

impl View for WorkerCall {
    type V = WorkerCallView;

    open spec fn view(&self) -> WorkerCallView {
        match *self {
            WorkerCall::Event(call) => WorkerCallView::Event(call),
            WorkerCall::Queue(call) => WorkerCallView::Queue(call@),
            WorkerCall::Host(call) => WorkerCallView::Host(call@),
        }
    }
}

/// What came of a call.
#[derive(Debug)]
pub enum WorkerAnswer<E, Q, M, S> {
    Event(EventAnswer<E, Error<Q, M>, S>),
    Queue(QueueAnswer<Q, M>),
    Host(Answer),
}

/// Where the worker stands.
#[derive(Debug)]
pub enum WorkerState {
    /// It works on the event itself.
    Event(EventCall),
    /// It works on the queue.
    Queue(QueueState),
    /// It works on a request, whose reply the queue waits for.
    Host { queue: QueueState, pending: Pending },
}

/// What a `WorkerState` says.
pub ghost enum WorkerStateView {
    Event(EventCall),
    Queue(QueueState),
    Host { queue: QueueState, pending: PendingView },
}

impl View for WorkerState {
    type V = WorkerStateView;

    open spec fn view(&self) -> WorkerStateView {
        match *self {
            WorkerState::Event(call) => WorkerStateView::Event(call),
            WorkerState::Queue(state) => WorkerStateView::Queue(state),
            WorkerState::Host { queue, pending } => WorkerStateView::Host {
                queue,
                pending: pending@,
            },
        }
    }
}

/// Whether an event was handled.
pub type Handled<E, Q, M, S> = Result<(), HandleEventError<E, Error<Q, M>, S>>;

/// What to do next, or whether the event is handled.
pub type WorkerStep<E, Q, M, S> = Step<WorkerState, WorkerCall, Handled<E, Q, M, S>>;

/// What a `WorkerStep` says.
pub type WorkerStepView<E, Q, M, S> = Step<WorkerStateView, WorkerCallView, Handled<E, Q, M, S>>;

/// What a `WorkerStep` says.
pub open spec fn worker_step_view<E, Q, M, S>(step: WorkerStep<E, Q, M, S>) -> WorkerStepView<
    E,
    Q,
    M,
    S,
> {
    match step {
        Step::Call(state, call) => Step::Call(state@, call@),
        Step::Done(r) => Step::Done(r),
    }
}

/// The worker's step for a step on the event: the queue is worked off by the worker itself.
pub open spec fn event_step<E, Q, M, S>(step: EventStep<E, Error<Q, M>, S>) -> WorkerStepView<
    E,
    Q,
    M,
    S,
> {
    match step {
        Step::Done(r) => Step::Done(r),
        Step::Call(_, EventCall::ProcessQueue) => Step::Call(
            WorkerStateView::Queue(QueueState { used: false, stage: Stage::Pop }),
            WorkerCallView::Queue(QueueCallView::Pop),
        ),
        Step::Call(_, call) => Step::Call(
            WorkerStateView::Event(call),
            WorkerCallView::Event(call),
        ),
    }
}

/// The worker's step for a step on a request: its reply goes to the queue.
pub open spec fn request_step<E, Q, M, S>(queue: QueueState, step: StepView) -> WorkerStepView<
    E,
    Q,
    M,
    S,
> {
    match (step, queue.stage) {
        (StepView::Call(pending, call), _) => Step::Call(
            WorkerStateView::Host { queue, pending },
            WorkerCallView::Host(call),
        ),
        (StepView::Reply(reply), Stage::Handle { rsp }) => match queue::handled_next::<Q, M>(
            queue.used,
            rsp,
            reply,
        ) {
            Step::Call(state, call) => Step::Call(
                WorkerStateView::Queue(state),
                WorkerCallView::Queue(call),
            ),
            Step::Done(_) => arbitrary(),
        },
        _ => arbitrary(),
    }
}

/// The table and the worker's step for a step on the queue: requests are carried out, and when the
/// queue is worked off, that is the answer for the event.
pub open spec fn queue_step<E, Q, M, S>(
    bos: Map<u32, BoView>,
    step: Step<QueueState, QueueCallView, Result<bool, Error<Q, M>>>,
) -> (Map<u32, BoView>, WorkerStepView<E, Q, M, S>) {
    match step {
        Step::Done(r) => (bos, event_step(npu::event_next(EventAnswer::Processed(r)))),
        Step::Call(state, QueueCallView::Handle { req }) => {
            let first = request::start(bos, req);
            (first.0, request_step(state, first.1))
        },
        Step::Call(state, call) => (
            bos,
            Step::Call(WorkerStateView::Queue(state), WorkerCallView::Queue(call)),
        ),
    }
}

/// The table and what to do after an answer came in.
pub open spec fn worker_next<E, Q, M, S>(
    bos: Map<u32, BoView>,
    state: WorkerStateView,
    answer: WorkerAnswer<E, Q, M, S>,
) -> (Map<u32, BoView>, WorkerStepView<E, Q, M, S>) {
    match (state, answer) {
        (WorkerStateView::Event(_), WorkerAnswer::Event(answer)) => (
            bos,
            event_step(npu::event_next(answer)),
        ),
        (WorkerStateView::Queue(state), WorkerAnswer::Queue(answer)) => queue_step(
            bos,
            queue::queue_next(state, answer),
        ),
        (WorkerStateView::Host { queue, pending }, WorkerAnswer::Host(answer)) => {
            let next = request::next(bos, pending, answer);
            (next.0, request_step(queue, next.1))
        },
        _ => arbitrary(),
    }
}

/// The worker can go on from there.
pub open spec fn worker_can_resume(bos: Map<u32, BoView>, state: WorkerStateView) -> bool {
    match state {
        WorkerStateView::Event(call) => call !is ProcessQueue,
        WorkerStateView::Queue(queue) => queue.stage !is Handle,
        WorkerStateView::Host { queue, pending } => queue.stage is Handle && request::can_resume(
            bos,
            pending,
        ),
    }
}

/// A step leaves the worker where it can go on.
pub open spec fn worker_step_can_resume<E, Q, M, S>(
    bos: Map<u32, BoView>,
    step: WorkerStepView<E, Q, M, S>,
) -> bool {
    step matches Step::Call(state, _) ==> worker_can_resume(bos, state)
}

/// The answer is to the call that is outstanding.
pub open spec fn worker_answers<E, Q, M, S>(
    state: WorkerStateView,
    answer: WorkerAnswer<E, Q, M, S>,
) -> bool {
    match (state, answer) {
        (WorkerStateView::Event(call), WorkerAnswer::Event(answer)) => npu::event_answers(
            call,
            answer,
        ),
        (WorkerStateView::Queue(queue), WorkerAnswer::Queue(answer)) => queue::answers(
            queue,
            answer,
        ),
        (WorkerStateView::Host { pending, .. }, WorkerAnswer::Host(answer)) => request::answers(
            pending,
            answer,
        ),
        _ => false,
    }
}

impl WorkerCall {
    /// The lists of a submission have the counts that stand beside them.
    pub open spec fn counted(self) -> bool {
        self matches WorkerCall::Host(HostCall::Submit(args)) ==> args.counted()
    }
}

/// The lists of a submission that a step makes have the counts that stand beside them.
pub open spec fn step_counted<E, Q, M, S>(step: WorkerStep<E, Q, M, S>) -> bool {
    step matches Step::Call(_, call) ==> call.counted()
}

/// Goes from a step on the event to the worker's.
fn after_event<E, Q, M, S>(step: EventStep<E, Error<Q, M>, S>) -> (r: WorkerStep<E, Q, M, S>)
    ensures
        worker_step_view(r) == event_step(step),
        step_counted(r),
{
    match step {
        Step::Done(r) => Step::Done(r),
        Step::Call(_, EventCall::ProcessQueue) => match queue::process_queue::<Q, M>() {
            Step::Call(state, call) => Step::Call(
                WorkerState::Queue(state),
                WorkerCall::Queue(call),
            ),
            Step::Done(_) => unreached(),
        },
        Step::Call(_, call) => Step::Call(WorkerState::Event(call), WorkerCall::Event(call)),
    }
}

/// Goes from a step on a request to the worker's.
fn after_request<E, Q, M, S>(queue: QueueState, step: request::Step) -> (r: WorkerStep<E, Q, M, S>)
    requires
        queue.stage is Handle,
        step.counted(),
    ensures
        worker_step_view(r) == request_step::<E, Q, M, S>(queue, step@),
        step_counted(r),
{
    match step {
        request::Step::Call(pending, call) => Step::Call(
            WorkerState::Host { queue, pending },
            WorkerCall::Host(call),
        ),
        request::Step::Reply(reply) => match queue::resume_queue::<Q, M>(
            queue,
            QueueAnswer::Handled(reply),
        ) {
            Step::Call(state, call) => Step::Call(
                WorkerState::Queue(state),
                WorkerCall::Queue(call),
            ),
            Step::Done(_) => unreached(),
        },
    }
}

impl NpuEpollHandler {
    /// Goes from a step on the queue to the worker's.
    fn after_queue<E, Q, M, S>(&mut self, step: QueueStep<Q, M>) -> (r: WorkerStep<E, Q, M, S>)
        requires
            step matches Step::Call(state, call) ==> (state.stage is Handle <==> call is Handle),
        ensures
            (final(self)@, worker_step_view(r)) == queue_step::<E, Q, M, S>(
                old(self)@,
                queue::step_view(step),
            ),
            worker_step_can_resume(final(self)@, worker_step_view(r)),
            step_counted(r),
    {
        match step {
            Step::Done(r) => after_event(
                npu::resume_event(EventCall::ProcessQueue, EventAnswer::Processed(r)),
            ),
            Step::Call(state, QueueCall::Handle { req }) => {
                let first = self.handle_request(req.as_slice());
                after_request(state, first)
            },
            Step::Call(state, call) => Step::Call(
                WorkerState::Queue(state),
                WorkerCall::Queue(call),
            ),
        }
    }

    /// Starts to handle an event.
    pub fn handle_event<E, Q, M, S>(&self, data: u64, queue_avail_event: u16) -> (step: WorkerStep<
        E,
        Q,
        M,
        S,
    >)
        ensures
            worker_step_view(step) == event_step(
                npu::event_start::<E, Error<Q, M>, S>(data, queue_avail_event),
            ),
            worker_step_can_resume(self@, worker_step_view(step)),
            step_counted(step),
    {
        after_event(npu::handle_event(data, queue_avail_event))
    }

    /// Goes on handling an event.
    pub fn resume_worker<E, Q, M, S>(
        &mut self,
        state: WorkerState,
        answer: WorkerAnswer<E, Q, M, S>,
    ) -> (step: WorkerStep<E, Q, M, S>)
        requires
            worker_can_resume(old(self)@, state@),
            worker_answers(state@, answer),
        ensures
            (final(self)@, worker_step_view(step)) == worker_next(old(self)@, state@, answer),
            worker_step_can_resume(final(self)@, worker_step_view(step)),
            step_counted(step),
    {
        match (state, answer) {
            (WorkerState::Event(call), WorkerAnswer::Event(answer)) => after_event(
                npu::resume_event(call, answer),
            ),
            (WorkerState::Queue(queue), WorkerAnswer::Queue(answer)) => self.after_queue(
                queue::resume_queue(queue, answer),
            ),
            (WorkerState::Host { queue, pending }, WorkerAnswer::Host(answer)) => {
                let next = self.resume(pending, answer);
                after_request(queue, next)
            },
            _ => unreached(),
        }
    }
}

} // verus!
