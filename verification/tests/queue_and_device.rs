use npu_vmm::npu;
use npu_vmm::npu::{
    ActivateAnswer, ActivateCall, ActivateError, ActivateStage, EventAnswer, EventCall,
    HandleEventError, MigratableError, Npu,
};
use npu_vmm::path::HostPath;
use npu_vmm::queue;
use npu_vmm::queue::{
    Chain, Descriptor, Error, Found, QueueAnswer, QueueCall, QueueState, QueueStep, Stage,
};
use npu_vmm::step::Step;

type Outcome = QueueStep<&'static str, &'static str>;
type Said = QueueAnswer<&'static str, &'static str>;

fn readable(addr: u64, len: u32) -> Found {
    Found::Valid(Descriptor { addr, len, write_only: false })
}

fn writable(addr: u64, len: u32) -> Found {
    Found::Valid(Descriptor { addr, len, write_only: true })
}

fn header_saying(len: u32) -> [u8; 8] {
    let mut h = [0u8; 8];
    h[4..].copy_from_slice(&len.to_le_bytes());
    h
}

fn queue_call(step: Outcome) -> (QueueState, QueueCall) {
    match step {
        Step::Call(state, call) => (state, call),
        Step::Done(r) => panic!("{r:?}"),
    }
}

fn queue_end(step: Outcome) -> Result<bool, Error<&'static str, &'static str>> {
    match step {
        Step::Done(r) => r,
        Step::Call(_, call) => panic!("{call:?}"),
    }
}

fn popped(first: Found, second: Found) -> Said {
    QueueAnswer::Popped(Some(Chain { first, second }))
}

/// Works one chain off up to the reply and returns the calls that it made.
fn serve_chain(
    state: QueueState,
    req: (u64, u32),
    rsp: (u64, u32),
    said: u32,
    reply: Vec<u8>,
) -> (QueueState, Vec<String>) {
    let mut calls = Vec::new();
    let chain = popped(readable(req.0, req.1), writable(rsp.0, rsp.1));
    let (state, call) = queue_call(queue::resume_queue(state, chain));
    calls.push(format!("{call:?}"));
    let (state, call) = queue_call(queue::resume_queue(state, QueueAnswer::Header(Ok(header_saying(said)))));
    let QueueCall::ReadRequest { len, .. } = call else { panic!("{call:?}") };
    calls.push(format!("{call:?}"));
    let bytes = vec![0xab; len as usize];
    let (state, call) = queue_call(queue::resume_queue(state, QueueAnswer::Request(Ok(bytes))));
    calls.push(format!("{call:?}"));
    let (state, call) = queue_call(queue::resume_queue(state, QueueAnswer::Handled(reply)));
    calls.push(format!("{call:?}"));
    let (state, call) = queue_call(queue::resume_queue(state, QueueAnswer::Written(Ok(()))));
    calls.push(format!("{call:?}"));
    let (state, call) = queue_call(queue::resume_queue(state, QueueAnswer::Used(Ok(()))));
    calls.push(format!("{call:?}"));
    (state, calls)
}

#[test]
fn empty_queue_uses_nothing() {
    let (state, call) = queue_call(queue::process_queue());
    assert!(matches!(call, QueueCall::Pop));
    assert_eq!(state, QueueState { used: false, stage: Stage::Pop });
    assert!(!queue_end(queue::resume_queue(state, QueueAnswer::Popped(None))).unwrap());
}

#[test]
fn chains_are_served_until_there_is_none() {
    let (state, _) = queue_call(queue::process_queue());
    let (state, calls) = serve_chain(state, (0x100, 64), (0x200, 16), 3, vec![1, 2, 3, 4]);
    assert_eq!(
        calls,
        vec![
            "ReadHeader { addr: 256 }",
            "ReadRequest { addr: 256, len: 3 }",
            "Handle { req: [171, 171, 171] }",
            "WriteReply { addr: 512, reply: [1, 2, 3, 4] }",
            "AddUsed { len: 4 }",
            "Pop",
        ]
    );
    // What the header says is cut to the buffer, and the reply to its.
    let (state, calls) = serve_chain(state, (0x300, 2), (0x400, 1), u32::MAX, vec![9, 8, 7]);
    assert_eq!(
        calls,
        vec![
            "ReadHeader { addr: 768 }",
            "ReadRequest { addr: 768, len: 2 }",
            "Handle { req: [171, 171] }",
            "WriteReply { addr: 1024, reply: [9] }",
            "AddUsed { len: 1 }",
            "Pop",
        ]
    );
    assert!(queue_end(queue::resume_queue(state, QueueAnswer::Popped(None))).unwrap());
}

#[test]
fn chains_that_are_no_good() {
    let start = QueueState { used: false, stage: Stage::Pop };
    let short = |first, second| {
        matches!(
            queue_end(queue::resume_queue(start, popped(first, second))),
            Err(Error::DescriptorChainTooShort)
        )
    };
    let invalid = |first, second| {
        matches!(
            queue_end(queue::resume_queue(start, popped(first, second))),
            Err(Error::InvalidDescriptor)
        )
    };
    let (r, w) = (readable(1, 8), writable(2, 8));
    assert!(short(Found::Nothing, Found::Nothing));
    assert!(short(r, Found::Nothing));
    assert!(short(w, Found::Nothing));
    assert!(invalid(Found::Invalid, Found::Nothing));
    assert!(invalid(Found::Invalid, w));
    assert!(invalid(r, Found::Invalid));
    assert!(invalid(w, w));
    assert!(invalid(r, r));
    assert!(invalid(w, r));
    assert!(queue::chain_buffers::<(), ()>(Chain { first: r, second: w }).is_ok());
}

#[test]
fn guest_memory_that_fails() {
    let req = Descriptor { addr: 1, len: 8, write_only: false };
    let rsp = Descriptor { addr: 2, len: 8, write_only: true };
    let at = |stage| QueueState { used: true, stage };
    let r = queue_end(queue::resume_queue(at(Stage::Header { req, rsp }), Said::Header(Err("h"))));
    assert!(matches!(r, Err(Error::GuestMemoryRead("h"))));
    let r = queue_end(queue::resume_queue(at(Stage::Request { len: 8, rsp }), Said::Request(Err("r"))));
    assert!(matches!(r, Err(Error::GuestMemoryRead("r"))));
    let r = queue_end(queue::resume_queue(at(Stage::Write { written: 8 }), Said::Written(Err("w"))));
    assert!(matches!(r, Err(Error::GuestMemoryWrite("w"))));
    let r = queue_end(queue::resume_queue(at(Stage::AddUsed), Said::Used(Err("u"))));
    assert!(matches!(r, Err(Error::QueueAddUsed("u"))));
}

type Event = Step<EventCall, EventCall, Result<(), HandleEventError<&'static str, &'static str, &'static str>>>;

fn event_call(step: Event) -> EventCall {
    match step {
        Step::Call(state, call) => {
            assert_eq!(state, call);
            call
        }
        Step::Done(r) => panic!("{r:?}"),
    }
}

fn event_end(step: Event) -> Result<(), HandleEventError<&'static str, &'static str, &'static str>> {
    match step {
        Step::Done(r) => r,
        Step::Call(_, call) => panic!("{call:?}"),
    }
}

#[test]
fn guest_is_told_if_chains_were_used() {
    let avail = npu::queue_avail_event(15);
    assert_eq!(avail, 16);
    let call = event_call(npu::handle_event(0xffff_0010, avail));
    assert_eq!(call, EventCall::ReadQueueEvent);
    let call = event_call(npu::resume_event(call, EventAnswer::Read(Ok(()))));
    assert_eq!(call, EventCall::ProcessQueue);
    assert!(event_end(npu::resume_event(call, EventAnswer::Processed(Ok(false)))).is_ok());
    let call = event_call(npu::resume_event(call, EventAnswer::Processed(Ok(true))));
    assert_eq!(call, EventCall::SignalUsedQueue { queue: 0 });
    assert!(event_end(npu::resume_event(call, EventAnswer::Signalled(Ok(())))).is_ok());
}

#[test]
fn events_that_fail() {
    let r = event_end(npu::handle_event(17, 16));
    assert!(matches!(r, Err(HandleEventError::Unexpected(17))));
    let r = event_end(npu::handle_event(0x2_0000, 16));
    assert!(matches!(r, Err(HandleEventError::Unexpected(0))));
    let r = event_end(npu::resume_event(EventCall::ReadQueueEvent, EventAnswer::Read(Err("e"))));
    assert!(matches!(r, Err(HandleEventError::QueueEvent("e"))));
    let r = event_end(npu::resume_event(EventCall::ProcessQueue, EventAnswer::Processed(Err("p"))));
    assert!(matches!(r, Err(HandleEventError::ProcessQueue("p"))));
    let signal = EventCall::SignalUsedQueue { queue: 0 };
    let r = event_end(npu::resume_event(signal, EventAnswer::Signalled(Err("s"))));
    assert!(matches!(r, Err(HandleEventError::Signal("s"))));
}

fn sample_device() -> Npu {
    let path = HostPath { bytes: b"/dev/accel/accel0".to_vec() };
    Npu::new("npu0".to_owned(), path, 45).unwrap()
}

#[test]
fn new_device() {
    let npu = sample_device();
    assert_eq!(npu.id(), "npu0");
    assert_eq!(npu.path.bytes, b"/dev/accel/accel0");
    assert_eq!(npu.device_type(), 45);
    assert_eq!(npu.queue_max_sizes(), &[16]);
    assert_eq!(npu.features(), 1 << 32);
    assert_eq!(npu.common.acked_features, 0);
    assert_eq!(npu.common.min_queues, 1);
    assert!(!npu.common.paused);
    assert_eq!(npu.common.paused_sync, 2);
}

#[test]
fn snapshots_are_refused() {
    match sample_device().snapshot() {
        Err(MigratableError::Snapshot(text)) => {
            assert_eq!(text, "virtio-npu does not support snapshots")
        }
        Ok(()) => panic!(),
    }
}

type Activation = Step<ActivateStage, ActivateCall, Result<(), ActivateError<&'static str>>>;

fn activate_call(step: Activation) -> (ActivateStage, ActivateCall) {
    match step {
        Step::Call(stage, call) => (stage, call),
        Step::Done(r) => panic!("{r:?}"),
    }
}

fn activate_end(step: Activation) -> Result<(), ActivateError<&'static str>> {
    match step {
        Step::Done(r) => r,
        Step::Call(_, call) => panic!("{call:?}"),
    }
}

#[test]
fn activation_in_order() {
    let npu = sample_device();
    let ok = || ActivateAnswer::Common(Ok(()));
    let (stage, call) = activate_call(npu.activate());
    assert!(matches!(call, ActivateCall::Common));
    let (stage, call) = activate_call(npu.resume_activate(stage, ok()));
    assert!(matches!(call, ActivateCall::DupEventFds));
    let (stage, call) = activate_call(npu.resume_activate(stage, ok()));
    match call {
        ActivateCall::OpenAccel { path } => assert_eq!(path.bytes, b"/dev/accel/accel0"),
        other => panic!("{other:?}"),
    }
    let (stage, call) = activate_call(npu.resume_activate(stage, ActivateAnswer::Opened(true)));
    match call {
        ActivateCall::SpawnWorker { name, queue, confined, handler } => {
            assert_eq!((name.as_str(), queue, confined), ("npu0", 0, false));
            assert!(handler.mappings().is_empty());
        }
        other => panic!("{other:?}"),
    }
    assert!(activate_end(npu.resume_activate(stage, ok())).is_ok());
}

#[test]
fn activation_that_fails() {
    let npu = sample_device();
    for stage in [ActivateStage::Common, ActivateStage::DupEventFds, ActivateStage::SpawnWorker] {
        let r = activate_end(npu.resume_activate(stage, ActivateAnswer::Common(Err("e"))));
        assert!(matches!(r, Err(ActivateError::Common("e"))));
    }
    let closed = ActivateAnswer::Opened(false);
    let r = activate_end(npu.resume_activate(ActivateStage::OpenAccel, closed));
    assert!(matches!(r, Err(ActivateError::BadActivate)));
}
