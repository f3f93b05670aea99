//! The device as the virtual machine sees it: what it offers, how it is brought up, and what wakes
//! it.

use vstd::prelude::*;

use crate::bo::BoView;
use crate::path::HostPath;
use crate::platform_error::IoError;
use crate::request::NpuEpollHandler;
use crate::step::Step;

verus! {

/// The descriptors of the device's queue.
pub const QUEUE_SIZE: u16 = 16;

/// The feature bit of devices that follow the current standard.
pub const VIRTIO_F_VERSION_1: u64 = 32;

/// What all devices of the virtual machine have.
#[derive(Debug)]
pub struct VirtioCommon {
    pub device_type: u32,
    pub queue_sizes: Vec<u16>,
    pub min_queues: u16,
    pub avail_features: u64,
    pub acked_features: u64,
    pub paused: bool,
    /// How many threads meet when the device pauses.
    pub paused_sync: usize,
}

/// The device: its id, and the host's file through which it works.
#[derive(Debug)]
pub struct Npu {
    pub common: VirtioCommon,
    pub id: String,
    pub path: HostPath,
}

/// What is not supported.
#[derive(Debug)]
pub enum MigratableError {
    Snapshot(String),
}

impl Npu {
    /// A device of the given virtio type that has not been activated.
    pub fn new(id: String, path: HostPath, device_type: u32) -> (r: Result<Npu, IoError>)
        ensures
            match r {
                Ok(npu) => {
                    &&& npu.id == id
                    &&& npu.path == path
                    &&& npu.common.device_type == device_type
                    &&& npu.common.queue_sizes@ == seq![QUEUE_SIZE]
                    &&& npu.common.min_queues == 1
                    &&& npu.common.avail_features == 0x1_0000_0000
                    &&& npu.common.acked_features == 0
                    &&& !npu.common.paused
                    &&& npu.common.paused_sync == 2
                },
                Err(_) => false,
            },
    {
        let avail_features: u64 = 1u64 << VIRTIO_F_VERSION_1;
        assert(1u64 << 32u64 == 0x1_0000_0000u64) by (bit_vector);
        let queue_sizes: Vec<u16> = vec![QUEUE_SIZE];
        assert(queue_sizes@ =~= seq![QUEUE_SIZE]);
        Ok(
            Npu {
                common: VirtioCommon {
                    device_type,
                    queue_sizes,
                    min_queues: 1,
                    avail_features,
                    acked_features: 0,
                    paused: false,
                    paused_sync: 2,
                },
                id,
                path,
            },
        )
    }

    /// The device's virtio type.
    pub fn device_type(&self) -> (r: u32)
        ensures
            r == self.common.device_type,
    {
        self.common.device_type
    }

    /// The sizes of the device's queues.
    pub fn queue_max_sizes(&self) -> (r: &[u16])
        ensures
            r@ == self.common.queue_sizes@,
    {
        self.common.queue_sizes.as_slice()
    }

    /// The features that the device offers.
    pub fn features(&self) -> (r: u64)
        ensures
            r == self.common.avail_features,
    {
        self.common.avail_features
    }

    /// The device's id.
    pub fn id(&self) -> (r: String)
        ensures
            r@ == self.id@,
    {
        self.id.clone()
    }

    /// Snapshots are always refused.
    pub fn snapshot(&self) -> (r: Result<(), MigratableError>)
        ensures
            r matches Err(MigratableError::Snapshot(text)) && text@
                == "virtio-npu does not support snapshots"@,
    {
        Err(MigratableError::Snapshot("virtio-npu does not support snapshots".to_owned()))
    }
}

// ---- activation ----

/// Why the device could not be activated. `E` is what the parts that all devices share report.
#[derive(Debug)]
pub enum ActivateError<E> {
    /// A part that all devices share failed.
    Common(E),
    /// The host's file could not be opened.
    BadActivate,
}

/// Work for activating the device.
#[derive(Debug)]
pub enum ActivateCall {
    /// Activate what all devices share.
    Common,
    /// Duplicate the events that stop and pause the worker.
    DupEventFds,
    /// Open the host's file, at that path, for reading and writing.
    OpenAccel { path: HostPath },
    /// Start a worker of that name that serves that queue with that handler; confined to a set of
    /// system calls or not.
    SpawnWorker { name: String, queue: usize, confined: bool, handler: NpuEpollHandler },
}

/// What an `ActivateCall` says.
pub ghost enum ActivateCallView {
    Common,
    DupEventFds,
    OpenAccel { path: Seq<u8> },
    SpawnWorker { name: Seq<char>, queue: usize, confined: bool, bos: Map<u32, BoView> },
}

impl View for ActivateCall {
    type V = ActivateCallView;

    open spec fn view(&self) -> ActivateCallView {
        match *self {
            ActivateCall::Common => ActivateCallView::Common,
            ActivateCall::DupEventFds => ActivateCallView::DupEventFds,
            ActivateCall::OpenAccel { path } => ActivateCallView::OpenAccel { path: path@ },
            ActivateCall::SpawnWorker { name, queue, confined, handler } =>
                ActivateCallView::SpawnWorker { name: name@, queue, confined, bos: handler@ },
        }
    }
}

/// The call that is outstanding.
#[derive(Clone, Copy, Debug, PartialEq, Eq, Structural)]
pub enum ActivateStage {
    Common,
    DupEventFds,
    OpenAccel,
    SpawnWorker,
}

/// What came of a call.
#[derive(Debug)]
pub enum ActivateAnswer<E> {
    /// Whether a shared part went through.
    Common(Result<(), E>),
    /// Whether the file is open.
    Opened(bool),
}

/// What to do next, or whether the device is active.
pub type ActivateStep<E> = Step<ActivateStage, ActivateCall, Result<(), ActivateError<E>>>;

/// What an `ActivateStep` says.
pub type ActivateStepView<E> = Step<ActivateStage, ActivateCallView, Result<(), ActivateError<E>>>;

/// What an `ActivateStep` says.
pub open spec fn activate_step_view<E>(step: ActivateStep<E>) -> ActivateStepView<E> {
    match step {
        Step::Call(stage, call) => Step::Call(stage, call@),
        Step::Done(r) => Step::Done(r),
    }
}

/// The answer is to the call that is outstanding.
pub open spec fn activate_answers<E>(stage: ActivateStage, answer: ActivateAnswer<E>) -> bool {
    match stage {
        ActivateStage::OpenAccel => answer is Opened,
        _ => answer is Common,
    }
}

/// The call that follows, for a device of that id and with that file.
pub open spec fn activate_then<E>(id: Seq<char>, path: Seq<u8>, stage: ActivateStage) ->
    ActivateStepView<E> {
    match stage {
        ActivateStage::Common => Step::Call(
            ActivateStage::DupEventFds,
            ActivateCallView::DupEventFds,
        ),
        ActivateStage::DupEventFds => Step::Call(
            ActivateStage::OpenAccel,
            ActivateCallView::OpenAccel { path },
        ),
        ActivateStage::OpenAccel => Step::Call(
            ActivateStage::SpawnWorker,
            ActivateCallView::SpawnWorker {
                name: id,
                queue: 0,
                confined: false,
                bos: Map::empty(),
            },
        ),
        ActivateStage::SpawnWorker => Step::Done(Ok(())),
    }
}

/// What to do after an answer came in.
pub open spec fn activate_next<E>(
    id: Seq<char>,
    path: Seq<u8>,
    stage: ActivateStage,
    answer: ActivateAnswer<E>,
) -> ActivateStepView<E> {
    match answer {
        ActivateAnswer::Common(Err(e)) => Step::Done(Err(ActivateError::Common(e))),
        ActivateAnswer::Opened(false) => Step::Done(Err(ActivateError::BadActivate)),
        _ => activate_then(id, path, stage),
    }
}

impl Npu {
    /// Starts to activate the device.
    pub fn activate<E>(&self) -> (step: ActivateStep<E>)
        ensures
            activate_step_view(step) == ActivateStepView::<E>::Call(
                ActivateStage::Common,
                ActivateCallView::Common,
            ),
    {
        Step::Call(ActivateStage::Common, ActivateCall::Common)
    }

    /// Goes on activating the device.
    pub fn resume_activate<E>(&self, stage: ActivateStage, answer: ActivateAnswer<E>) -> (step:
        ActivateStep<E>)
        requires
            activate_answers(stage, answer),
        ensures
            activate_step_view(step) == activate_next(self.id@, self.path@, stage, answer),
    {
        match answer {
            ActivateAnswer::Common(Err(e)) => {
                return Step::Done(Err(ActivateError::Common(e)));
            },
            ActivateAnswer::Opened(false) => {
                return Step::Done(Err(ActivateError::BadActivate));
            },
            _ => {},
        }
        match stage {
            ActivateStage::Common => Step::Call(
                ActivateStage::DupEventFds,
                ActivateCall::DupEventFds,
            ),
            ActivateStage::DupEventFds => Step::Call(
                ActivateStage::OpenAccel,
                ActivateCall::OpenAccel { path: self.path.duplicate() },
            ),
            ActivateStage::OpenAccel => Step::Call(
                ActivateStage::SpawnWorker,
                ActivateCall::SpawnWorker {
                    name: self.id.clone(),
                    queue: 0,
                    confined: false,
                    handler: NpuEpollHandler::new(),
                },
            ),
            ActivateStage::SpawnWorker => Step::Done(Ok(())),
        }
    }
}

// ---- events ----

/// Why an event could not be handled: `E` is what reading an event reports, `P` what working the
/// queue off reports, and `S` what signalling the guest reports.
#[derive(Debug)]
pub enum HandleEventError<E, P, S> {
    QueueEvent(E),
    ProcessQueue(P),
    Signal(S),
    Unexpected(u16),
}

/// Work on an event.
#[derive(Clone, Copy, Debug, PartialEq, Eq, Structural)]
pub enum EventCall {
    /// Read the queue's event.
    ReadQueueEvent,
    /// Work the queue off.
    ProcessQueue,
    /// Tell the guest that chains of that queue were used.
    SignalUsedQueue { queue: u16 },
}

/// What came of a call.
#[derive(Debug)]
pub enum EventAnswer<E, P, S> {
    /// Whether the event was read.
    Read(Result<(), E>),
    /// Whether any chain was used.
    Processed(Result<bool, P>),
    /// Whether the guest was told.
    Signalled(Result<(), S>),
}

/// What to do next, or whether the event is handled.
pub type EventStep<E, P, S> = Step<EventCall, EventCall, Result<(), HandleEventError<E, P, S>>>;

/// The answer is to the call that is outstanding.
pub open spec fn event_answers<E, P, S>(call: EventCall, answer: EventAnswer<E, P, S>) -> bool {
    match call {
        EventCall::ReadQueueEvent => answer is Read,
        EventCall::ProcessQueue => answer is Processed,
        EventCall::SignalUsedQueue { .. } => answer is Signalled,
    }
}

/// What to do first: the low sixteen bits of what the event loop hands over tell the event.
pub open spec fn event_start<E, P, S>(data: u64, queue_avail_event: u16) -> EventStep<E, P, S> {
    let ev_type = (data % 0x1_0000) as u16;
    if ev_type == queue_avail_event {
        Step::Call(EventCall::ReadQueueEvent, EventCall::ReadQueueEvent)
    } else {
        Step::Done(Err(HandleEventError::Unexpected(ev_type)))
    }
}

/// What to do after an answer came in.
pub open spec fn event_next<E, P, S>(answer: EventAnswer<E, P, S>) -> EventStep<E, P, S> {
    match answer {
        EventAnswer::Read(Ok(_)) => Step::Call(EventCall::ProcessQueue, EventCall::ProcessQueue),
        EventAnswer::Read(Err(e)) => Step::Done(Err(HandleEventError::QueueEvent(e))),
        EventAnswer::Processed(Ok(needs_notification)) => if needs_notification {
            let signal = EventCall::SignalUsedQueue { queue: 0 };
            Step::Call(signal, signal)
        } else {
            Step::Done(Ok(()))
        },
        EventAnswer::Processed(Err(e)) => Step::Done(Err(HandleEventError::ProcessQueue(e))),
        EventAnswer::Signalled(Ok(_)) => Step::Done(Ok(())),
        EventAnswer::Signalled(Err(e)) => Step::Done(Err(HandleEventError::Signal(e))),
    }
}

/// The number of the queue's event: the first behind those of the event loop itself.
pub fn queue_avail_event(helper_event_last: u16) -> (r: u16)
    requires
        helper_event_last < u16::MAX,
    ensures
        r == helper_event_last + 1,
{
    helper_event_last + 1
}

/// Starts to handle an event.
pub fn handle_event<E, P, S>(data: u64, queue_avail_event: u16) -> (step: EventStep<E, P, S>)
    ensures
        step == event_start::<E, P, S>(data, queue_avail_event),
{
    let ev_type: u16 = (data % 0x1_0000) as u16;
    if ev_type == queue_avail_event {
        Step::Call(EventCall::ReadQueueEvent, EventCall::ReadQueueEvent)
    } else {
        Step::Done(Err(HandleEventError::Unexpected(ev_type)))
    }
}

/// Goes on handling an event.
pub fn resume_event<E, P, S>(call: EventCall, answer: EventAnswer<E, P, S>) -> (step: EventStep<
    E,
    P,
    S,
>)
    requires
        event_answers(call, answer),
    ensures
        step == event_next(answer),
{
    match answer {
        EventAnswer::Read(Ok(_)) => Step::Call(EventCall::ProcessQueue, EventCall::ProcessQueue),
        EventAnswer::Read(Err(e)) => Step::Done(Err(HandleEventError::QueueEvent(e))),
        EventAnswer::Processed(Ok(needs_notification)) => if needs_notification {
            let signal = EventCall::SignalUsedQueue { queue: 0 };
            Step::Call(signal, signal)
        } else {
            Step::Done(Ok(()))
        },
        EventAnswer::Processed(Err(e)) => Step::Done(Err(HandleEventError::ProcessQueue(e))),
        EventAnswer::Signalled(Ok(_)) => Step::Done(Ok(())),
        EventAnswer::Signalled(Err(e)) => Step::Done(Err(HandleEventError::Signal(e))),
    }
}

} // verus!
