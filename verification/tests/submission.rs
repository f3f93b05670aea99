use npu_vmm::bo::{BoTable, HostBo};
use npu_vmm::errno;
use npu_vmm::request::{Answer, HostCall, NpuEpollHandler, Step};
use npu_vmm::rocket::{DrmRocketCreateBo, DrmRocketTask};
use npu_vmm::submit;
use npu_vmm::wire;

fn table_of(ids: &[(u32, u32)]) -> BoTable {
    let mut table = BoTable::new();
    for (gid, handle) in ids {
        let bo = HostBo { handle: *handle, va: 0, size: 0, mapped: 0, gpas: vec![] };
        assert!(table.insert(*gid, bo).is_none());
    }
    table
}

fn submission_body(words: &[u32]) -> Vec<u8> {
    words.iter().flat_map(|w| w.to_le_bytes()).collect()
}

#[test]
fn jobs_reach_the_driver_with_its_handles() {
    let table = table_of(&[(1, 100), (2, 200), (3, 300)]);
    let body = submission_body(&[
        2, 0xaaaa, // two jobs
        2, 1, 2, 0xbbbb, // two tasks, one in, two out
        0x1000, 7, 0x2000, 8, // the tasks
        2, // in
        3, 1, // out
        1, 2, 0, 0, // one task, two in
        0x3000, 9, // the task
        1, 1, // in
    ]);
    let submit = submit::read_submission(&table, &body, 2).unwrap();
    assert_eq!(submit.job_count, 2);
    assert_eq!(submit.job_struct_size, 40);
    assert_eq!(submit.reserved, 0);
    assert_eq!(submit.jobs.len(), 2);
    let first = &submit.jobs[0];
    assert_eq!(
        first.tasks,
        vec![
            DrmRocketTask { regcmd: 0x1000, regcmd_count: 7 },
            DrmRocketTask { regcmd: 0x2000, regcmd_count: 8 },
        ]
    );
    assert_eq!(first.in_bo_handles, vec![200]);
    assert_eq!(first.out_bo_handles, vec![300, 100]);
    assert_eq!(
        (first.task_count, first.task_struct_size, first.in_bo_handle_count, first.out_bo_handle_count),
        (2, 8, 1, 2)
    );
    let second = &submit.jobs[1];
    assert_eq!(second.tasks, vec![DrmRocketTask { regcmd: 0x3000, regcmd_count: 9 }]);
    assert_eq!(second.in_bo_handles, vec![100, 100]);
    assert!(second.out_bo_handles.is_empty());
    // Bytes behind the last job are ignored.
    let mut longer = body.clone();
    longer.extend_from_slice(&[1, 2, 3]);
    assert_eq!(submit::read_submission(&table, &longer, 2).unwrap().jobs.len(), 2);
}

#[test]
fn no_jobs_are_fine() {
    let table = table_of(&[]);
    let submit = submit::read_submission(&table, &submission_body(&[0, 0]), 0).unwrap();
    assert_eq!(submit.job_count, 0);
    assert!(submit.jobs.is_empty());
}

#[test]
fn jobs_that_are_cut_short_are_invalid() {
    let table = table_of(&[(1, 100)]);
    let body = submission_body(&[1, 0, 1, 1, 1, 0, 5, 6, 1, 1]);
    assert!(submit::read_submission(&table, &body, 1).is_ok());
    for len in 8..body.len() {
        assert_eq!(submit::read_submission(&table, &body[..len], 1).unwrap_err(), errno::EINVAL);
    }
    // A second job is announced and missing.
    assert_eq!(submit::read_submission(&table, &body, 2).unwrap_err(), errno::EINVAL);
    // Counts that no body could hold.
    let huge = submission_body(&[1, 0, u32::MAX, u32::MAX, u32::MAX, 0]);
    assert_eq!(submit::read_submission(&table, &huge, 1).unwrap_err(), errno::EINVAL);
}

#[test]
fn ids_that_name_nothing_are_refused() {
    let table = table_of(&[(1, 100)]);
    let bad_in = submission_body(&[1, 0, 0, 1, 1, 0, 2, 1]);
    let bad_out = submission_body(&[1, 0, 0, 1, 1, 0, 1, 2]);
    assert_eq!(submit::read_submission(&table, &bad_in, 1).unwrap_err(), errno::ENOENT);
    assert_eq!(submit::read_submission(&table, &bad_out, 1).unwrap_err(), errno::ENOENT);
}

#[test]
fn the_first_fault_decides() {
    let table = table_of(&[(1, 100)]);
    // The first job names nothing, the second is cut short.
    let body = submission_body(&[2, 0, 0, 1, 0, 0, 9, 1, 1]);
    assert_eq!(submit::read_submission(&table, &body, 2).unwrap_err(), errno::ENOENT);
    // The first job is cut short, whatever it names.
    let body = submission_body(&[2, 0, 0, 1, 1, 0, 9]);
    assert_eq!(submit::read_submission(&table, &body, 2).unwrap_err(), errno::EINVAL);
    // A job that is cut short is refused before its ids are looked at, and a good one ahead of it
    // changes nothing.
    let body = submission_body(&[2, 0, 0, 1, 0, 0, 1, 0, 2, 0, 0, 9]);
    assert_eq!(submit::read_submission(&table, &body, 2).unwrap_err(), errno::EINVAL);
}

/// A handler with one buffer object: id 5, handle 50.
fn handler_with_one() -> NpuEpollHandler {
    let mut handler = NpuEpollHandler::new();
    let create: Vec<u8> = submission_body(&[1, 24, 64, 0, 5, 0]);
    let Step::Call(pending, _) = handler.handle_request(&create) else { panic!() };
    let args = DrmRocketCreateBo { size: 64, handle: 50, dma_address: 0, offset: 0 };
    let Step::Call(pending, _) =
        handler.resume(pending, Answer::Created { ret: 0, args, os_error: None })
    else {
        panic!()
    };
    assert!(matches!(handler.resume(pending, Answer::Mapped(Some(4096))), Step::Reply(_)));
    handler
}

#[test]
fn submission_goes_to_the_driver() {
    for (ret, os_error, reply) in [
        (0, None, wire::success_reply()),
        (-1, Some(11), wire::fail(11)),
        (2, None, wire::fail(errno::EIO)),
    ] {
        let mut handler = handler_with_one();
        let req = submission_body(&[3, 44, 1, 0, 1, 1, 0, 0, 0x40, 2, 5]);
        let Step::Call(pending, HostCall::Submit(args)) = handler.handle_request(&req) else {
            panic!()
        };
        assert_eq!(args.job_count, 1);
        assert_eq!(args.jobs[0].in_bo_handles, vec![50]);
        match handler.resume(pending, Answer::Returned { ret, os_error }) {
            Step::Reply(r) => assert_eq!(r, reply),
            other => panic!("{other:?}"),
        }
    }
}

#[test]
fn bad_submission_never_reaches_the_driver() {
    let mut handler = handler_with_one();
    let req = submission_body(&[3, 44, 1, 0, 0, 1, 0, 0, 6]);
    match handler.handle_request(&req) {
        Step::Reply(r) => assert_eq!(r, wire::fail(errno::ENOENT)),
        other => panic!("{other:?}"),
    }
    let req = submission_body(&[3, 44, 1, 0, 0, 1, 0, 0]);
    match handler.handle_request(&req) {
        Step::Reply(r) => assert_eq!(r, wire::fail(errno::EINVAL)),
        other => panic!("{other:?}"),
    }
}
