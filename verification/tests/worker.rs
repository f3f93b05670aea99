use npu_vmm::bo::BoMapping;
use npu_vmm::npu::{EventAnswer, EventCall, HandleEventError};
use npu_vmm::queue::{Chain, Descriptor, Error, Found, QueueAnswer, QueueCall};
use npu_vmm::request::{Answer, HostCall, NpuEpollHandler};
use npu_vmm::rocket::DrmRocketCreateBo;
use npu_vmm::step::Step;
use npu_vmm::wire;
use npu_vmm::worker::{WorkerAnswer, WorkerCall};

type Said = WorkerAnswer<&'static str, &'static str, &'static str, &'static str>;
type End = Result<(), HandleEventError<&'static str, Error<&'static str, &'static str>, &'static str>>;

/// A guest with one page of memory, chains that wait, and what happened to them.
struct Machine {
    memory: Vec<u8>,
    waiting: Vec<Chain>,
    used: Vec<u32>,
    signals: u32,
    host: Vec<u8>,
}

fn word_bytes(words: &[u32]) -> Vec<u8> {
    words.iter().flat_map(|w| w.to_le_bytes()).collect()
}

impl Machine {
    fn new(requests: &[Vec<u8>]) -> Machine {
        let mut memory = vec![0u8; 4096];
        let mut waiting = Vec::new();
        // Request `i` stands at 256 * i, and there is room for its reply 128 bytes behind that.
        for (i, req) in requests.iter().enumerate() {
            let addr = 256 * i;
            memory[addr..addr + req.len()].copy_from_slice(req);
            let valid = |at: usize, len: usize, write_only: bool| {
                Found::Valid(Descriptor { addr: at as u64, len: len as u32, write_only })
            };
            waiting.push(Chain {
                first: valid(addr, req.len(), false),
                second: valid(addr + 128, 16, true),
            });
        }
        waiting.reverse();
        Machine { memory, waiting, used: vec![], signals: 0, host: vec![0; 64] }
    }

    fn reply(&self, i: usize) -> &[u8] {
        let len = self.used[i] as usize;
        &self.memory[256 * i + 128..256 * i + 128 + len]
    }

    fn answer(&mut self, call: WorkerCall) -> Said {
        match call {
            WorkerCall::Event(EventCall::ReadQueueEvent) => {
                WorkerAnswer::Event(EventAnswer::Read(Ok(())))
            }
            WorkerCall::Event(EventCall::SignalUsedQueue { queue }) => {
                assert_eq!(queue, 0);
                self.signals += 1;
                WorkerAnswer::Event(EventAnswer::Signalled(Ok(())))
            }
            WorkerCall::Queue(QueueCall::Pop) => {
                WorkerAnswer::Queue(QueueAnswer::Popped(self.waiting.pop()))
            }
            WorkerCall::Queue(QueueCall::ReadHeader { addr }) => {
                let at = addr as usize;
                let header = self.memory[at..at + 8].try_into().unwrap();
                WorkerAnswer::Queue(QueueAnswer::Header(Ok(header)))
            }
            WorkerCall::Queue(QueueCall::ReadRequest { addr, len }) => {
                let at = addr as usize;
                let req = self.memory[at..at + len as usize].to_vec();
                WorkerAnswer::Queue(QueueAnswer::Request(Ok(req)))
            }
            WorkerCall::Queue(QueueCall::WriteReply { addr, reply }) => {
                let at = addr as usize;
                self.memory[at..at + reply.len()].copy_from_slice(&reply);
                WorkerAnswer::Queue(QueueAnswer::Written(Ok(())))
            }
            WorkerCall::Queue(QueueCall::AddUsed { len }) => {
                self.used.push(len);
                WorkerAnswer::Queue(QueueAnswer::Used(Ok(())))
            }
            WorkerCall::Host(HostCall::CreateBo(args)) => {
                let args = DrmRocketCreateBo { handle: 77, dma_address: 0xabcd, ..args };
                WorkerAnswer::Host(Answer::Created { ret: 0, args, os_error: None })
            }
            WorkerCall::Host(HostCall::Mmap(_)) => {
                WorkerAnswer::Host(Answer::Mapped(Some(0x5000)))
            }
            WorkerCall::Host(HostCall::CopyIn(copy)) if copy.len == 0 => {
                WorkerAnswer::Host(Answer::Copied(true))
            }
            WorkerCall::Host(HostCall::CopyIn(copy)) => {
                let at = copy.gpa as usize;
                self.host[copy.offset..copy.offset + copy.len]
                    .copy_from_slice(&self.memory[at..at + copy.len]);
                WorkerAnswer::Host(Answer::Copied(true))
            }
            WorkerCall::Host(HostCall::FiniBo(args)) => {
                assert_eq!(args.handle, 77);
                WorkerAnswer::Host(Answer::Returned { ret: 0, os_error: None })
            }
            other => panic!("{other:?}"),
        }
    }

    fn run(&mut self, handler: &mut NpuEpollHandler, data: u64) -> End {
        let mut step = handler.handle_event(data, 16);
        loop {
            let (state, call) = match step {
                Step::Done(r) => return r,
                Step::Call(state, call) => (state, call),
            };
            let answer = self.answer(call);
            step = handler.resume_worker(state, answer);
        }
    }
}

#[test]
fn requests_are_answered_through_the_queue() {
    let mut create = word_bytes(&[1, 32, 64, 1, 9, 0]);
    create.extend_from_slice(&3000u64.to_le_bytes());
    let fini = word_bytes(&[5, 12, 9]);
    let unknown = word_bytes(&[5, 12, 8]);
    let mut machine = Machine::new(&[create, fini, unknown]);
    machine.memory[3000..3064].fill(0x5a);
    let mut handler = NpuEpollHandler::new();
    assert!(machine.run(&mut handler, 16).is_ok());
    assert_eq!(machine.used, vec![16, 8, 8]);
    assert_eq!(machine.reply(0), wire::created_reply(0xabcd));
    assert_eq!(machine.reply(1), wire::success_reply());
    assert_eq!(machine.reply(2), wire::fail(2));
    assert_eq!(machine.host, vec![0x5a; 64]);
    assert_eq!(machine.signals, 1);
    assert_eq!(handler.mappings(), vec![BoMapping { gid: 9, va: 0x5000, size: 64 }]);
}

#[test]
fn an_event_without_chains_tells_nobody() {
    let mut machine = Machine::new(&[]);
    assert!(machine.run(&mut NpuEpollHandler::new(), 16).is_ok());
    assert_eq!(machine.signals, 0);
}

#[test]
fn a_bad_chain_ends_the_event() {
    let mut machine = Machine::new(&[word_bytes(&[5, 12, 8])]);
    machine.waiting.insert(0, Chain { first: Found::Nothing, second: Found::Nothing });
    let r = machine.run(&mut NpuEpollHandler::new(), 16);
    assert!(matches!(r, Err(HandleEventError::ProcessQueue(Error::DescriptorChainTooShort))));
    // The chain ahead of it was used, but the guest is not told.
    assert_eq!(machine.used.len(), 1);
    assert_eq!(machine.signals, 0);
}

#[test]
fn another_event_is_refused_by_the_worker() {
    let mut machine = Machine::new(&[]);
    let r = machine.run(&mut NpuEpollHandler::new(), 3);
    assert!(matches!(r, Err(HandleEventError::Unexpected(3))));
}

#[test]
fn pages_behind_the_end_do_no_harm() {
    let mut create = word_bytes(&[1, 48, 64, 3, 9, 0]);
    for gpa in [3000u64, 0, u64::MAX] {
        create.extend_from_slice(&gpa.to_le_bytes());
    }
    let fini = word_bytes(&[5, 12, 9]);
    let mut machine = Machine::new(&[create, fini]);
    machine.memory[3000..3064].fill(0x5a);
    assert!(machine.run(&mut NpuEpollHandler::new(), 16).is_ok());
    assert_eq!(machine.reply(1), wire::success_reply());
    assert_eq!(machine.host, vec![0x5a; 64]);
}
