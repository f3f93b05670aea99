//! What the host's driver gets of a submission, word by word.

use vstd::prelude::*;

use crate::bo::BoView;
use crate::le;
use crate::rocket::{DrmRocketJob, DrmRocketSubmit, JobView};
use crate::submit;

verus! {

/// The jobs lie one behind the other from byte 8 of the body on: each takes sixteen bytes, eight for
/// each of its tasks, and four for each of the ids that it reads and writes.
pub proof fn law_jobs_lie_in_a_row(b: Seq<u8>, k: nat)
    ensures
        submit::job_start(b, 0) == 8,
        submit::job_start(b, k + 1) == submit::job_start(b, k) + 16 + 8 * le::u32_at(
            b,
            submit::job_start(b, k),
        ) + 4 * le::u32_at(b, submit::job_start(b, k) + 4) + 4 * le::u32_at(
            b,
            submit::job_start(b, k) + 8,
        ),
{
}

/// The id names a buffer object that has that handle.
pub open spec fn is_handle_of(bos: Map<u32, BoView>, gid: u32, handle: u32) -> bool {
    bos.contains_key(gid) && handle == bos[gid].handle
}

/// The job that starts at byte `at` of the body reaches the host as it is written: the same tasks in
/// the same order, and the handles of the buffer objects that its ids name, in the order of the ids.
pub open spec fn reaches_the_host(
    bos: Map<u32, BoView>,
    b: Seq<u8>,
    at: int,
    job: JobView,
) -> bool {
    let tasks = le::u32_at(b, at) as int;
    let ins = le::u32_at(b, at + 4) as int;
    let outs = le::u32_at(b, at + 8) as int;
    &&& at + 16 + 8 * tasks + 4 * ins + 4 * outs <= b.len()
    &&& job.tasks.len() == tasks && job.ins.len() == ins && job.outs.len() == outs
    &&& forall|i: int|
        0 <= i < tasks ==> (#[trigger] job.tasks[i]).regcmd == le::u32_at(b, at + 16 + 8 * i)
            && job.tasks[i].regcmd_count == le::u32_at(b, at + 20 + 8 * i)
    &&& forall|i: int|
        0 <= i < ins ==> is_handle_of(
            bos,
            le::u32_at(b, at + 16 + 8 * tasks + 4 * i),
            #[trigger] job.ins[i],
        )
    &&& forall|i: int|
        0 <= i < outs ==> is_handle_of(
            bos,
            le::u32_at(b, at + 16 + 8 * tasks + 4 * ins + 4 * i),
            #[trigger] job.outs[i],
        )
}

/// If the host gets a submission, it gets all of its jobs, each as it is written.
pub proof fn law_jobs_reach_the_host(bos: Map<u32, BoView>, b: Seq<u8>, n: nat, k: nat)
    requires
        k < n,
    ensures
        submit::host_jobs(bos, b, n) matches Ok(jobs) ==> jobs.len() == n && reaches_the_host(
            bos,
            b,
            submit::job_start(b, k),
            jobs[k as int],
        ),
{
    submit::law_first_fault_decides(bos, b, n);
    if let Ok(jobs) = submit::host_jobs(bos, b, n) {
        let at = submit::job_start(b, k);
        assert(submit::fault(bos, b, k) is None);
        let job = jobs[k as int];
        assert(job == submit::host_job(bos, b, k));
        let tasks = le::u32_at(b, at) as int;
        let ins = le::u32_at(b, at + 4) as int;
        let outs = le::u32_at(b, at + 8) as int;
        assert forall|i: int| 0 <= i < tasks implies (#[trigger] job.tasks[i]).regcmd == le::u32_at(
            b,
            at + 16 + 8 * i,
        ) && job.tasks[i].regcmd_count == le::u32_at(b, at + 20 + 8 * i) by {
            assert(job.tasks[i].regcmd_count == le::u32_at(b, at + 16 + 8 * i + 4));
        }
        assert forall|i: int| 0 <= i < ins implies is_handle_of(
            bos,
            le::u32_at(b, at + 16 + 8 * tasks + 4 * i),
            #[trigger] job.ins[i],
        ) by {
            assert(bos.contains_key(submit::in_ids(b, at)[i]));
        }
        assert forall|i: int| 0 <= i < outs implies is_handle_of(
            bos,
            le::u32_at(b, at + 16 + 8 * tasks + 4 * ins + 4 * i),
            #[trigger] job.outs[i],
        ) by {
            assert(bos.contains_key(submit::out_ids(b, at)[i]));
        }
    }
}

/// The body holds all that the counts of the job at byte `at` announce.
pub open spec fn whole(b: Seq<u8>, at: int) -> bool {
    &&& at + 16 <= b.len()
    &&& at + 16 + 8 * le::u32_at(b, at) + 4 * le::u32_at(b, at + 4) + 4 * le::u32_at(b, at + 8)
        <= b.len()
}

/// One of the ids of the job at byte `at` names no buffer object.
pub open spec fn names_nothing(bos: Map<u32, BoView>, b: Seq<u8>, at: int, i: int) -> bool {
    let ids = at + 16 + 8 * le::u32_at(b, at);
    &&& 0 <= i < le::u32_at(b, at + 4) + le::u32_at(b, at + 8)
    &&& !bos.contains_key(le::u32_at(b, ids + 4 * i))
}

/// A submission is refused only for a job that is cut short, as invalid, or for an id that names no
/// buffer object, as missing; and it is not refused while every job is whole and all ids name one.
pub proof fn law_refused_submission(bos: Map<u32, BoView>, b: Seq<u8>, n: nat)
    ensures
        submit::host_jobs(bos, b, n) matches Err(e) ==> exists|k: nat|
            k < n && ({
                let at = #[trigger] submit::job_start(b, k);
                ||| e == 22 && !whole(b, at)
                ||| e == 2 && whole(b, at) && exists|i: int| #[trigger] names_nothing(bos, b, at, i)
            }) && forall|j: nat|
                j < k ==> whole(b, #[trigger] submit::job_start(b, j)) && forall|i: int|
                    !(#[trigger] names_nothing(bos, b, submit::job_start(b, j), i)),
        submit::host_jobs(bos, b, n) matches Ok(jobs) ==> jobs.len() == n && forall|j: nat|
            j < n ==> whole(b, #[trigger] submit::job_start(b, j)) && forall|i: int|
                !(#[trigger] names_nothing(bos, b, submit::job_start(b, j), i)),
{
    submit::law_first_fault_decides(bos, b, n);
    match submit::host_jobs(bos, b, n) {
        Ok(_) => {
            assert forall|j: nat| j < n implies whole(b, #[trigger] submit::job_start(b, j))
                && forall|i: int| !(#[trigger] names_nothing(bos, b, submit::job_start(b, j), i)) by {
                assert(submit::fault(bos, b, j) is None);
                lemma_good(bos, b, j);
            }
        },
        Err(e) => {
            let k = choose|k: nat|
                k < n && #[trigger] submit::fault(bos, b, k) == Some(e) && forall|j: nat|
                    j < k ==> (#[trigger] submit::fault(bos, b, j)) is None;
            lemma_bad(bos, b, k, e);
            assert forall|j: nat| j < k implies whole(b, #[trigger] submit::job_start(b, j))
                && forall|i: int| !(#[trigger] names_nothing(bos, b, submit::job_start(b, j), i)) by {
                assert(submit::fault(bos, b, j) is None);
                lemma_good(bos, b, j);
            }
        },
    }
}

/// A job without fault is whole, and all of its ids name buffer objects.
proof fn lemma_good(bos: Map<u32, BoView>, b: Seq<u8>, k: nat)
    requires
        submit::fault(bos, b, k) is None,
    ensures
        whole(b, submit::job_start(b, k)),
        forall|i: int| !(#[trigger] names_nothing(bos, b, submit::job_start(b, k), i)),
{
    let at = submit::job_start(b, k);
    assert forall|i: int| !(#[trigger] names_nothing(bos, b, at, i)) by {
        if names_nothing(bos, b, at, i) {
            let ins = le::u32_at(b, at + 4) as int;
            if i < ins {
                assert(bos.contains_key(submit::in_ids(b, at)[i]));
            } else {
                assert(bos.contains_key(submit::out_ids(b, at)[i - ins]));
            }
        }
    }
}

/// A job with a fault is cut short, or one of its ids names nothing.
proof fn lemma_bad(bos: Map<u32, BoView>, b: Seq<u8>, k: nat, e: i32)
    requires
        submit::fault(bos, b, k) == Some(e),
    ensures
        ({
            let at = submit::job_start(b, k);
            ||| e == 22 && !whole(b, at)
            ||| e == 2 && whole(b, at) && exists|i: int| #[trigger] names_nothing(bos, b, at, i)
        }),
{
    let at = submit::job_start(b, k);
    let ins = submit::in_ids(b, at);
    let outs = submit::out_ids(b, at);
    if submit::job_complete(b, at) {
        if !submit::all_known(bos, ins) {
            let i = choose|i: int| 0 <= i < ins.len() && !bos.contains_key(#[trigger] ins[i]);
            assert(names_nothing(bos, b, at, i));
        } else {
            let i = choose|i: int| 0 <= i < outs.len() && !bos.contains_key(#[trigger] outs[i]);
            assert(names_nothing(bos, b, at, ins.len() + i));
        }
    }
}

/// The driver's structures say what they hold: every count is that of the list beside it, and the
/// sizes are those of a job and of a task in C.
pub proof fn law_counts_are_right(args: DrmRocketSubmit, i: int)
    requires
        args.counted(),
        0 <= i < args.jobs@.len(),
    ensures
        args.job_count == args.jobs@.len(),
        args.job_struct_size == 40,
        args.reserved == 0,
        args.jobs@[i].task_count == args.jobs@[i].tasks@.len(),
        args.jobs@[i].task_struct_size == 8,
        args.jobs@[i].in_bo_handle_count == args.jobs@[i].in_bo_handles@.len(),
        args.jobs@[i].out_bo_handle_count == args.jobs@[i].out_bo_handles@.len(),
        args@.len() == args.jobs@.len(),
        args@[i].tasks == args.jobs@[i].tasks@,
        args@[i].ins == args.jobs@[i].in_bo_handles@,
        args@[i].outs == args.jobs@[i].out_bo_handles@,
{
    let job: DrmRocketJob = args.jobs@[i];
    assert(job.counted());
}

/// A submission without jobs has its count and sizes too.
pub proof fn law_count_of_jobs(args: DrmRocketSubmit)
    requires
        args.counted(),
    ensures
        args.job_count == args.jobs@.len(),
        args.job_struct_size == 40,
        args.reserved == 0,
        args@.len() == args.jobs@.len(),
{
}

} // verus!
