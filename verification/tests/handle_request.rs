use npu_vmm::bo::{BoMapping, PageCopy};
use npu_vmm::errno;
use npu_vmm::mapping::MmapArgs;
use npu_vmm::request::{Answer, HostCall, NpuEpollHandler, Pending, Step};
use npu_vmm::rocket::{DrmGemClose, DrmRocketCreateBo, DrmRocketFiniBo, DrmRocketPrepBo};
use npu_vmm::wire;

/// A request of an opcode and 32-bit words behind the header.
fn plain_request(opcode: u32, body: &[u32]) -> Vec<u8> {
    let mut v = Vec::new();
    v.extend_from_slice(&opcode.to_le_bytes());
    v.extend_from_slice(&(8 + 4 * body.len() as u32).to_le_bytes());
    for w in body {
        v.extend_from_slice(&w.to_le_bytes());
    }
    v
}

fn create_request(size: u32, gid: u32, gpas: &[u64]) -> Vec<u8> {
    let mut v = plain_request(1, &[size, gpas.len() as u32, gid, 0]);
    for gpa in gpas {
        v.extend_from_slice(&gpa.to_le_bytes());
    }
    v
}

fn prep_request(gid: u32, timeout_ns: i64) -> Vec<u8> {
    let mut v = plain_request(4, &[gid, 0]);
    v.extend_from_slice(&timeout_ns.to_le_bytes());
    v
}

fn call_of(step: Step) -> (Pending, HostCall) {
    match step {
        Step::Call(pending, call) => (pending, call),
        Step::Reply(reply) => panic!("replied {reply:?}"),
    }
}

fn reply_of(step: Step) -> Vec<u8> {
    match step {
        Step::Reply(reply) => reply,
        Step::Call(_, call) => panic!("called {call:?}"),
    }
}

fn driver_said(ret: i32, os_error: Option<i32>) -> Answer {
    Answer::Returned { ret, os_error }
}

/// Makes a buffer object and returns the reply.
fn make(
    handler: &mut NpuEpollHandler,
    size: u32,
    gid: u32,
    gpas: &[u64],
    made: DrmRocketCreateBo,
    va: usize,
) -> Step {
    let (pending, call) = call_of(handler.handle_request(&create_request(size, gid, gpas)));
    match call {
        HostCall::CreateBo(args) => assert_eq!(
            args,
            DrmRocketCreateBo { size, handle: 0, dma_address: 0, offset: 0 }
        ),
        other => panic!("{other:?}"),
    }
    let created = Answer::Created { ret: 0, args: made, os_error: None };
    let (pending, call) = call_of(handler.resume(pending, created));
    match call {
        HostCall::Mmap(args) => assert_eq!(
            args,
            MmapArgs {
                len: u64::from(made.size),
                prot: libc::PROT_READ | libc::PROT_WRITE,
                flags: libc::MAP_SHARED,
                offset: made.offset as i64,
            }
        ),
        other => panic!("{other:?}"),
    }
    handler.resume(pending, Answer::Mapped(Some(va)))
}

fn sample(handle: u32) -> DrmRocketCreateBo {
    DrmRocketCreateBo { size: 8192, handle, dma_address: 0x1_0000_2000, offset: 0x1_0000_0000 }
}

#[test]
fn create_maps_and_tells_the_address() {
    let mut handler = NpuEpollHandler::new();
    let reply = reply_of(make(&mut handler, 5000, 7, &[0x1000, 0x9000], sample(3), 0x7000));
    assert_eq!(reply, wire::created_reply(0x1_0000_2000));
    // What is mapped is what the driver made, not what the guest asked for.
    assert_eq!(handler.mappings(), vec![BoMapping { gid: 7, va: 0x7000, size: 8192 }]);
}

#[test]
fn create_that_the_driver_refuses() {
    for (os_error, status) in [(Some(12), 12), (Some(1), 1), (None, errno::EIO)] {
        let mut handler = NpuEpollHandler::new();
        let (pending, _) = call_of(handler.handle_request(&create_request(64, 1, &[])));
        let answer = Answer::Created { ret: -1, args: sample(3), os_error };
        assert_eq!(reply_of(handler.resume(pending, answer)), wire::fail(status));
        assert!(handler.mappings().is_empty());
    }
}

#[test]
fn create_goes_on_if_the_driver_returns_more_than_zero() {
    let mut handler = NpuEpollHandler::new();
    let (pending, _) = call_of(handler.handle_request(&create_request(64, 1, &[])));
    let answer = Answer::Created { ret: 5, args: sample(3), os_error: None };
    assert!(matches!(call_of(handler.resume(pending, answer)).1, HostCall::Mmap(_)));
}

#[test]
fn create_that_cannot_be_mapped_is_closed_again() {
    let mut handler = NpuEpollHandler::new();
    let (pending, _) = call_of(handler.handle_request(&create_request(64, 1, &[])));
    let created = Answer::Created { ret: 0, args: sample(3), os_error: None };
    let (pending, _) = call_of(handler.resume(pending, created));
    let (pending, call) = call_of(handler.resume(pending, Answer::Mapped(None)));
    match call {
        HostCall::Close(args) => assert_eq!(args, DrmGemClose { handle: 3, pad: 0 }),
        other => panic!("{other:?}"),
    }
    let reply = reply_of(handler.resume(pending, driver_said(-1, Some(9))));
    assert_eq!(reply, wire::fail(errno::ENOMEM));
    assert!(handler.mappings().is_empty());
}

#[test]
fn create_under_a_taken_id_replaces_and_unmaps() {
    let mut handler = NpuEpollHandler::new();
    reply_of(make(&mut handler, 4096, 7, &[0x1000], sample(3), 0x7000));
    let (pending, call) = call_of(make(&mut handler, 100, 7, &[0x2000], sample(4), 0x8000));
    match call {
        HostCall::Unmap { va, size } => assert_eq!((va, size), (0x7000, 8192)),
        other => panic!("{other:?}"),
    }
    let reply = reply_of(handler.resume(pending, Answer::Unmapped));
    assert_eq!(reply, wire::created_reply(0x1_0000_2000));
    assert_eq!(handler.mappings(), vec![BoMapping { gid: 7, va: 0x8000, size: 8192 }]);
}

#[test]
fn destroy_closes_then_unmaps() {
    for closed in [driver_said(0, None), driver_said(-1, Some(22))] {
        let mut handler = NpuEpollHandler::new();
        reply_of(make(&mut handler, 4096, 7, &[0x1000], sample(3), 0x7000));
        let (pending, call) = call_of(handler.handle_request(&plain_request(2, &[7])));
        match call {
            HostCall::Close(args) => assert_eq!(args, DrmGemClose { handle: 3, pad: 0 }),
            other => panic!("{other:?}"),
        }
        let (pending, call) = call_of(handler.resume(pending, closed));
        match call {
            HostCall::Unmap { va, size } => assert_eq!((va, size), (0x7000, 8192)),
            other => panic!("{other:?}"),
        }
        assert_eq!(reply_of(handler.resume(pending, Answer::Unmapped)), wire::success_reply());
        assert!(handler.mappings().is_empty());
    }
}

#[test]
fn destroy_of_nothing_succeeds() {
    let mut handler = NpuEpollHandler::new();
    let reply = reply_of(handler.handle_request(&plain_request(2, &[7])));
    assert_eq!(reply, wire::success_reply());
}

#[test]
fn destroyed_buffer_object_is_gone() {
    let mut handler = NpuEpollHandler::new();
    reply_of(make(&mut handler, 4096, 7, &[0x1000], sample(3), 0x7000));
    let (pending, _) = call_of(handler.handle_request(&plain_request(2, &[7])));
    let (pending, _) = call_of(handler.resume(pending, driver_said(0, None)));
    reply_of(handler.resume(pending, Answer::Unmapped));
    let gone = wire::fail(errno::ENOENT);
    assert_eq!(reply_of(handler.handle_request(&plain_request(5, &[7]))), gone);
    assert_eq!(reply_of(handler.handle_request(&prep_request(7, 1))), gone);
    let submit = plain_request(3, &[1, 0, 0, 1, 0, 0, 7]);
    assert_eq!(reply_of(handler.handle_request(&submit)), gone);
}

#[test]
fn fini_copies_every_page_and_hands_over() {
    let mut handler = NpuEpollHandler::new();
    reply_of(make(&mut handler, 5000, 7, &[0x1000, 0x9000], sample(3), 0x7000));
    let (pending, call) = call_of(handler.handle_request(&plain_request(5, &[7])));
    match call {
        HostCall::CopyIn(copy) => {
            assert_eq!(copy, PageCopy { gpa: 0x1000, va: 0x7000, offset: 0, len: 4096 })
        }
        other => panic!("{other:?}"),
    }
    let (pending, call) = call_of(handler.resume(pending, Answer::Copied(true)));
    match call {
        HostCall::CopyIn(copy) => {
            assert_eq!(copy, PageCopy { gpa: 0x9000, va: 0x7000, offset: 4096, len: 904 })
        }
        other => panic!("{other:?}"),
    }
    let (pending, call) = call_of(handler.resume(pending, Answer::Copied(true)));
    match call {
        HostCall::FiniBo(args) => assert_eq!(args, DrmRocketFiniBo { handle: 3, reserved: 0 }),
        other => panic!("{other:?}"),
    }
    assert_eq!(reply_of(handler.resume(pending, driver_said(0, None))), wire::success_reply());
}

#[test]
fn fini_fails_with_the_copy() {
    let mut handler = NpuEpollHandler::new();
    reply_of(make(&mut handler, 5000, 7, &[0x1000, 0x9000], sample(3), 0x7000));
    let (pending, _) = call_of(handler.handle_request(&plain_request(5, &[7])));
    let (pending, _) = call_of(handler.resume(pending, Answer::Copied(true)));
    let reply = reply_of(handler.resume(pending, Answer::Copied(false)));
    assert_eq!(reply, wire::fail(errno::EFAULT));
}

#[test]
fn fini_fails_with_the_driver() {
    // Anything but zero is a failure.
    for (ret, os_error, status) in [(-1, Some(5), 5), (1, Some(16), 16), (-1, None, errno::EIO)] {
        let mut handler = NpuEpollHandler::new();
        reply_of(make(&mut handler, 0, 7, &[], sample(3), 0x7000));
        let (pending, call) = call_of(handler.handle_request(&plain_request(5, &[7])));
        assert!(matches!(call, HostCall::FiniBo(_)));
        let reply = reply_of(handler.resume(pending, driver_said(ret, os_error)));
        assert_eq!(reply, wire::fail(status));
    }
}

#[test]
fn prep_waits_then_copies_every_page() {
    let mut handler = NpuEpollHandler::new();
    reply_of(make(&mut handler, 8192, 7, &[0x1000, 0x9000], sample(3), 0x7000));
    let (pending, call) = call_of(handler.handle_request(&prep_request(7, -9)));
    match call {
        HostCall::PrepBo(args) => assert_eq!(
            args,
            DrmRocketPrepBo { handle: 3, reserved: 0, timeout_ns: -9 }
        ),
        other => panic!("{other:?}"),
    }
    let (pending, call) = call_of(handler.resume(pending, driver_said(0, None)));
    match call {
        HostCall::CopyOut(copy) => {
            assert_eq!(copy, PageCopy { gpa: 0x1000, va: 0x7000, offset: 0, len: 4096 })
        }
        other => panic!("{other:?}"),
    }
    let (pending, call) = call_of(handler.resume(pending, Answer::Copied(true)));
    match call {
        HostCall::CopyOut(copy) => {
            assert_eq!(copy, PageCopy { gpa: 0x9000, va: 0x7000, offset: 4096, len: 4096 })
        }
        other => panic!("{other:?}"),
    }
    assert_eq!(reply_of(handler.resume(pending, Answer::Copied(true))), wire::success_reply());
}

#[test]
fn prep_that_times_out_copies_nothing() {
    for (ret, os_error, status) in [(-1, Some(110), 110), (7, None, errno::EIO)] {
        let mut handler = NpuEpollHandler::new();
        reply_of(make(&mut handler, 8192, 7, &[0x1000, 0x9000], sample(3), 0x7000));
        let (pending, _) = call_of(handler.handle_request(&prep_request(7, 0)));
        let reply = reply_of(handler.resume(pending, driver_said(ret, os_error)));
        assert_eq!(reply, wire::fail(status));
    }
}

#[test]
fn prep_fails_with_the_copy() {
    let mut handler = NpuEpollHandler::new();
    reply_of(make(&mut handler, 8192, 7, &[0x1000, 0x9000], sample(3), 0x7000));
    let (pending, _) = call_of(handler.handle_request(&prep_request(7, 0)));
    let (pending, _) = call_of(handler.resume(pending, driver_said(0, None)));
    let reply = reply_of(handler.resume(pending, Answer::Copied(false)));
    assert_eq!(reply, wire::fail(errno::EFAULT));
}

#[test]
fn prep_of_no_pages_replies_at_once() {
    let mut handler = NpuEpollHandler::new();
    reply_of(make(&mut handler, 8192, 7, &[], sample(3), 0x7000));
    let (pending, _) = call_of(handler.handle_request(&prep_request(7, 0)));
    assert_eq!(reply_of(handler.resume(pending, driver_said(0, None))), wire::success_reply());
}

#[test]
fn ids_that_name_nothing() {
    let mut handler = NpuEpollHandler::new();
    let none = wire::fail(errno::ENOENT);
    assert_eq!(reply_of(handler.handle_request(&plain_request(5, &[1]))), none);
    assert_eq!(reply_of(handler.handle_request(&prep_request(1, 5))), none);
}

#[test]
fn malformed_requests_are_invalid() {
    let mut handler = NpuEpollHandler::new();
    let invalid = wire::fail(errno::EINVAL);
    for req in [
        vec![],
        vec![1, 0, 0, 0, 8, 0, 0],
        plain_request(0, &[]),
        plain_request(6, &[1, 2, 3, 4]),
        plain_request(1, &[1, 0, 1]),
        plain_request(1, &[1, 1, 1, 0]),
        plain_request(2, &[]),
        plain_request(3, &[0]),
        plain_request(4, &[1, 0, 0]),
        plain_request(5, &[]),
    ] {
        assert_eq!(reply_of(handler.handle_request(&req)), invalid);
    }
}

/// The copies that handing a buffer object over makes, as (guest page, offset, length).
fn copies_of(handler: &mut NpuEpollHandler, gid: u32) -> Vec<(u64, usize, usize)> {
    let mut copies = Vec::new();
    let mut step = handler.handle_request(&plain_request(5, &[gid]));
    loop {
        let (pending, call) = call_of(step);
        match call {
            HostCall::CopyIn(copy) => copies.push((copy.gpa, copy.offset, copy.len)),
            HostCall::FiniBo(_) => return copies,
            other => panic!("{other:?}"),
        }
        step = handler.resume(pending, Answer::Copied(true));
    }
}

#[test]
fn nothing_is_copied_behind_the_end() {
    let mut handler = NpuEpollHandler::new();
    let gpas = [0x1000, 0x2000, 0x3000, 0x4000];
    reply_of(make(&mut handler, 5000, 7, &gpas, sample(3), 0x7000));
    assert_eq!(
        copies_of(&mut handler, 7),
        vec![(0x1000, 0, 4096), (0x2000, 4096, 904), (0x3000, 5000, 0), (0x4000, 5000, 0)]
    );
    // The same on the way back.
    let (pending, _) = call_of(handler.handle_request(&prep_request(7, 0)));
    let mut step = handler.resume(pending, driver_said(0, None));
    for (gpa, offset, len) in
        [(0x1000, 0, 4096), (0x2000, 4096, 904), (0x3000, 5000, 0), (0x4000, 5000, 0)]
    {
        let (pending, call) = call_of(step);
        match call {
            HostCall::CopyOut(copy) => assert_eq!(copy, PageCopy { gpa, va: 0x7000, offset, len }),
            other => panic!("{other:?}"),
        }
        step = handler.resume(pending, Answer::Copied(true));
    }
    assert_eq!(reply_of(step), wire::success_reply());
}

#[test]
fn a_page_at_the_very_end_is_empty() {
    let mut handler = NpuEpollHandler::new();
    reply_of(make(&mut handler, 4096, 7, &[0x1000, 0x2000], sample(3), 0x7000));
    assert_eq!(copies_of(&mut handler, 7), vec![(0x1000, 0, 4096), (0x2000, 4096, 0)]);
}

#[test]
fn nothing_is_copied_that_is_not_mapped() {
    // The driver made less than the guest asked for.
    let mut handler = NpuEpollHandler::new();
    let made = DrmRocketCreateBo { size: 6000, handle: 3, dma_address: 0, offset: 0 };
    let gpas = [0x1000, 0x2000, 0x3000];
    reply_of(make(&mut handler, 12288, 7, &gpas, made, 0x7000));
    assert_eq!(
        copies_of(&mut handler, 7),
        vec![(0x1000, 0, 4096), (0x2000, 4096, 1904), (0x3000, 6000, 0)]
    );
}

#[test]
fn what_was_mapped_is_unmapped() {
    for made_size in [0, 100, 4096, 65536] {
        let made = DrmRocketCreateBo { size: made_size, handle: 3, dma_address: 0, offset: 0 };
        let whole = (0x7000, made_size as usize);
        // When it is destroyed.
        let mut handler = NpuEpollHandler::new();
        reply_of(make(&mut handler, 4096, 7, &[], made, 0x7000));
        assert_eq!(
            handler.mappings(),
            vec![BoMapping { gid: 7, va: 0x7000, size: made_size as usize }]
        );
        let (pending, _) = call_of(handler.handle_request(&plain_request(2, &[7])));
        match call_of(handler.resume(pending, driver_said(0, None))).1 {
            HostCall::Unmap { va, size } => assert_eq!((va, size), whole),
            other => panic!("{other:?}"),
        }
        // When another one takes its id.
        let mut handler = NpuEpollHandler::new();
        reply_of(make(&mut handler, 4096, 7, &[], made, 0x7000));
        match call_of(make(&mut handler, 4096, 7, &[], sample(4), 0x9000)).1 {
            HostCall::Unmap { va, size } => assert_eq!((va, size), whole),
            other => panic!("{other:?}"),
        }
    }
}

#[test]
fn statuses_are_zero_or_positive() {
    let mut handler = NpuEpollHandler::new();
    reply_of(make(&mut handler, 64, 7, &[], sample(3), 0x7000));
    for (ret, os_error) in [(0, None), (-1, Some(5)), (-1, Some(i32::MAX)), (-1, None)] {
        let (pending, _) = call_of(handler.handle_request(&plain_request(5, &[7])));
        let reply = reply_of(handler.resume(pending, driver_said(ret, os_error)));
        let status = i32::from_le_bytes([reply[0], reply[1], reply[2], reply[3]]);
        assert!(status >= 0);
        assert_eq!(status == 0, ret == 0);
        assert_eq!(reply.len(), 8);
    }
}

#[test]
fn other_buffer_objects_stay() {
    let mut handler = NpuEpollHandler::new();
    reply_of(make(&mut handler, 10, 1, &[], sample(11), 0x1000));
    reply_of(make(&mut handler, 20, 2, &[], sample(12), 0x2000));
    reply_of(make(&mut handler, 30, 3, &[], sample(13), 0x3000));
    let (pending, _) = call_of(handler.handle_request(&plain_request(2, &[2])));
    let (pending, _) = call_of(handler.resume(pending, driver_said(0, None)));
    reply_of(handler.resume(pending, Answer::Unmapped));
    let mut left = handler.mappings();
    left.sort_by_key(|m| m.gid);
    assert_eq!(
        left,
        vec![
            BoMapping { gid: 1, va: 0x1000, size: 8192 },
            BoMapping { gid: 3, va: 0x3000, size: 8192 },
        ]
    );
}

/// Carries a request out against a host that always succeeds, on bytes: `guest` is guest memory,
/// `host` the mapping that starts at 0x7000.
fn carry_out(handler: &mut NpuEpollHandler, req: &[u8], guest: &mut [u8], host: &mut [u8]) -> Vec<u8> {
    let mut step = handler.handle_request(req);
    loop {
        let (pending, call) = match step {
            Step::Reply(reply) => return reply,
            Step::Call(pending, call) => (pending, call),
        };
        let answer = match call {
            HostCall::CreateBo(args) => Answer::Created { ret: 0, args, os_error: None },
            HostCall::Mmap(_) => Answer::Mapped(Some(0x7000)),
            HostCall::Unmap { .. } => Answer::Unmapped,
            HostCall::CopyIn(c) => {
                let at = c.gpa as usize;
                host[c.offset..c.offset + c.len].copy_from_slice(&guest[at..at + c.len]);
                Answer::Copied(true)
            }
            HostCall::CopyOut(c) => {
                let at = c.gpa as usize;
                guest[at..at + c.len].copy_from_slice(&host[c.offset..c.offset + c.len]);
                Answer::Copied(true)
            }
            _ => driver_said(0, None),
        };
        step = handler.resume(pending, answer);
    }
}

#[test]
fn contents_go_over_and_come_back() {
    let mut handler = NpuEpollHandler::new();
    let mut guest: Vec<u8> = (0..16384u32).map(|i| (i % 251) as u8).collect();
    let mut host = vec![0u8; 5000];
    carry_out(&mut handler, &create_request(5000, 7, &[0x2000, 0]), &mut guest, &mut host);
    let before = guest.clone();
    carry_out(&mut handler, &plain_request(5, &[7]), &mut guest, &mut host);
    assert_eq!(host[..4096], before[0x2000..0x3000]);
    assert_eq!(host[4096..], before[..904]);
    // Left alone, the contents come back as they went, whatever became of the guest's pages.
    guest[0x2000..0x2800].fill(0);
    guest[10..20].fill(0);
    carry_out(&mut handler, &prep_request(7, 0), &mut guest, &mut host);
    assert_eq!(guest, before);
    // What the device writes reaches the guest's pages, and nothing else does.
    host.fill(0xee);
    carry_out(&mut handler, &prep_request(7, 0), &mut guest, &mut host);
    assert!(guest[0x2000..0x3000].iter().all(|b| *b == 0xee));
    assert!(guest[..904].iter().all(|b| *b == 0xee));
    assert_eq!(guest[904..0x2000], before[904..0x2000]);
    assert_eq!(guest[0x3000..], before[0x3000..]);
}

#[test]
fn every_reply_says_its_length() {
    let mut handler = NpuEpollHandler::new();
    let mut guest = vec![0u8; 8192];
    let mut host = vec![0u8; 4096];
    for req in [
        create_request(4096, 7, &[0]),
        create_request(4096, 7, &[0x1000]),
        plain_request(5, &[7]),
        prep_request(7, 3),
        plain_request(3, &[0, 0]),
        plain_request(2, &[7]),
        plain_request(9, &[]),
    ] {
        let reply = carry_out(&mut handler, &req, &mut guest, &mut host);
        let said = u32::from_le_bytes([reply[4], reply[5], reply[6], reply[7]]);
        assert_eq!(said as usize, reply.len());
        assert!(reply.len() <= 16);
    }
}
