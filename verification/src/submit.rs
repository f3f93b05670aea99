//! The jobs of a submission: how they lie in the request, and what the host's driver gets.
//!
//! A job is three counts, a word that is ignored, its tasks of two words each, the ids of the buffer
//! objects that it reads, and the ids of those that it writes.

use vstd::prelude::*;

use crate::bo::{BoTable, BoView};
use crate::errno;
use crate::le;
use crate::rocket::{DrmRocketJob, DrmRocketSubmit, DrmRocketTask, JobView, JOB_SIZE, TASK_SIZE};
use crate::wire;

verus! {

/// Where the first job starts in a submission's body.
pub const JOBS_OFFSET: usize = 8;

/// The bytes of a job ahead of its lists.
pub const JOB_HEADER_LEN: usize = 16;

/// The tasks of a job at `off`.
pub open spec fn task_count(b: Seq<u8>, off: int) -> nat {
    le::u32_at(b, off) as nat
}

/// The buffer objects that a job at `off` reads.
pub open spec fn in_count(b: Seq<u8>, off: int) -> nat {
    le::u32_at(b, off + 4) as nat
}

/// The buffer objects that a job at `off` writes.
pub open spec fn out_count(b: Seq<u8>, off: int) -> nat {
    le::u32_at(b, off + 8) as nat
}

/// The bytes that the counts of a job at `off` announce.
pub open spec fn job_len(b: Seq<u8>, off: int) -> nat {
    JOB_HEADER_LEN as nat + 8 * task_count(b, off) + 4 * (in_count(b, off) + out_count(b, off))
}

/// The body holds all of the job at `off`.
pub open spec fn job_complete(b: Seq<u8>, off: int) -> bool {
    off + JOB_HEADER_LEN <= b.len() && off + job_len(b, off) <= b.len()
}

/// Where job `k` starts: right behind the one before it.
pub open spec fn job_start(b: Seq<u8>, k: nat) -> int
    decreases k,
{
    if k == 0 {
        JOBS_OFFSET as int
    } else {
        job_start(b, (k - 1) as nat) + job_len(b, job_start(b, (k - 1) as nat))
    }
}

/// `n` tasks at `off`.
pub open spec fn tasks_at(b: Seq<u8>, off: int, n: nat) -> Seq<DrmRocketTask> {
    Seq::new(
        n,
        |i: int|
            DrmRocketTask {
                regcmd: le::u32_at(b, off + 8 * i),
                regcmd_count: le::u32_at(b, off + 8 * i + 4),
            },
    )
}

/// The tasks of the job at `off`.
pub open spec fn job_tasks(b: Seq<u8>, off: int) -> Seq<DrmRocketTask> {
    tasks_at(b, off + JOB_HEADER_LEN, task_count(b, off))
}

/// The ids that the job at `off` reads.
pub open spec fn in_ids(b: Seq<u8>, off: int) -> Seq<u32> {
    wire::u32s(b, off + JOB_HEADER_LEN + 8 * task_count(b, off), in_count(b, off))
}

/// The ids that the job at `off` writes.
pub open spec fn out_ids(b: Seq<u8>, off: int) -> Seq<u32> {
    wire::u32s(
        b,
        off + JOB_HEADER_LEN + 8 * task_count(b, off) + 4 * in_count(b, off),
        out_count(b, off),
    )
}

/// Every id names a buffer object.
pub open spec fn all_known(bos: Map<u32, BoView>, ids: Seq<u32>) -> bool {
    forall|i: int| 0 <= i < ids.len() ==> bos.contains_key(#[trigger] ids[i])
}

/// The host's handles of the buffer objects that the ids name.
pub open spec fn handles(bos: Map<u32, BoView>, ids: Seq<u32>) -> Seq<u32> {
    ids.map_values(|gid: u32| bos[gid].handle)
}

/// Job `k` as the host's driver gets it.
pub open spec fn host_job(bos: Map<u32, BoView>, b: Seq<u8>, k: nat) -> JobView {
    let off = job_start(b, k);
    JobView {
        tasks: job_tasks(b, off),
        ins: handles(bos, in_ids(b, off)),
        outs: handles(bos, out_ids(b, off)),
    }
}

/// What is wrong with job `k`: it is cut short, or an id names nothing.
pub open spec fn fault(bos: Map<u32, BoView>, b: Seq<u8>, k: nat) -> Option<i32> {
    let off = job_start(b, k);
    if !job_complete(b, off) {
        Some(errno::EINVAL)
    } else if !all_known(bos, in_ids(b, off)) || !all_known(bos, out_ids(b, off)) {
        Some(errno::ENOENT)
    } else {
        None
    }
}

/// The first `n` jobs as the host's driver gets them, or what is wrong with the first bad one.
pub open spec fn host_jobs(bos: Map<u32, BoView>, b: Seq<u8>, n: nat) -> Result<Seq<JobView>, i32>
    decreases n,
{
    if n == 0 {
        Ok(Seq::empty())
    } else {
        let k = (n - 1) as nat;
        match host_jobs(bos, b, k) {
            Err(e) => Err(e),
            Ok(jobs) => match fault(bos, b, k) {
                Some(e) => Err(e),
                None => Ok(jobs.push(host_job(bos, b, k))),
            },
        }
    }
}

/// A submission is refused with what is wrong with its first bad job, and if no job is bad the host
/// gets all of them, in order.
pub proof fn law_first_fault_decides(bos: Map<u32, BoView>, b: Seq<u8>, n: nat)
    ensures
        match host_jobs(bos, b, n) {
            Ok(jobs) => {
                &&& forall|k: nat| k < n ==> (#[trigger] fault(bos, b, k)) is None
                &&& jobs =~= Seq::new(n, |k: int| host_job(bos, b, k as nat))
            },
            Err(e) => exists|k: nat|
                k < n && #[trigger] fault(bos, b, k) == Some(e) && forall|j: nat|
                    j < k ==> (#[trigger] fault(bos, b, j)) is None,
        },
    decreases n,
{
    if n > 0 {
        let k = (n - 1) as nat;
        law_first_fault_decides(bos, b, k);
    }
}

/// Reads `n` tasks at `off`.
fn read_tasks(b: &[u8], off: usize, n: usize) -> (tasks: Vec<DrmRocketTask>)
    requires
        off + 8 * n <= b.len(),
    ensures
        tasks@ == tasks_at(b@, off as int, n as nat),
{
    let mut tasks: Vec<DrmRocketTask> = Vec::new();
    let mut i: usize = 0;
    while i < n
        invariant
            i <= n,
            off + 8 * n <= b.len(),
            tasks@ == tasks_at(b@, off as int, i as nat),
        decreases n - i,
    {
        let at: usize = off + 8 * i;
        tasks.push(
            DrmRocketTask { regcmd: le::read_u32(b, at), regcmd_count: le::read_u32(b, at + 4) },
        );
        i = i + 1;
    }
    tasks
}

/// Reads `n` ids at `off` and looks their handles up.
fn translate(bos: &BoTable, b: &[u8], off: usize, n: usize) -> (r: Result<Vec<u32>, i32>)
    requires
        off + 4 * n <= b.len(),
    ensures
        ({
            let ids = wire::u32s(b@, off as int, n as nat);
            match r {
                Ok(v) => all_known(bos@, ids) && v@ == handles(bos@, ids),
                Err(e) => !all_known(bos@, ids) && e == errno::ENOENT,
            }
        }),
{
    let ghost ids = wire::u32s(b@, off as int, n as nat);
    let mut v: Vec<u32> = Vec::new();
    let mut i: usize = 0;
    while i < n
        invariant
            i <= n,
            off + 4 * n <= b.len(),
            ids == wire::u32s(b@, off as int, n as nat),
            forall|j: int| 0 <= j < i ==> bos@.contains_key(#[trigger] ids[j]),
            v@ == handles(bos@, ids.take(i as int)),
        decreases n - i,
    {
        let gid: u32 = le::read_u32(b, off + 4 * i);
        assert(gid == ids[i as int]);
        match bos.get(gid) {
            Some(bo) => {
                v.push(bo.handle);
            },
            None => {
                return Err(errno::ENOENT);
            },
        }
        assert(ids.take(i + 1) =~= ids.take(i as int).push(gid));
        i = i + 1;
    }
    assert(ids.take(n as int) =~= ids);
    Ok(v)
}

/// Reads the job at `off` and finds where it ends.
fn read_job(bos: &BoTable, b: &[u8], off: usize) -> (r: Result<(DrmRocketJob, usize), i32>)
    requires
        off <= b.len(),
    ensures
        match r {
            Ok((job, end)) => {
                &&& job_complete(b@, off as int)
                &&& all_known(bos@, in_ids(b@, off as int))
                &&& all_known(bos@, out_ids(b@, off as int))
                &&& job.counted()
                &&& job@.tasks == job_tasks(b@, off as int)
                &&& job@.ins == handles(bos@, in_ids(b@, off as int))
                &&& job@.outs == handles(bos@, out_ids(b@, off as int))
                &&& end == off + job_len(b@, off as int)
                &&& end <= b.len()
            },
            Err(e) => if job_complete(b@, off as int) {
                &&& e == errno::ENOENT
                &&& !all_known(bos@, in_ids(b@, off as int)) || !all_known(
                    bos@,
                    out_ids(b@, off as int),
                )
            } else {
                e == errno::EINVAL
            },
        },
{
    if b.len() - off < JOB_HEADER_LEN {
        return Err(errno::EINVAL);
    }
    let tasks_n: u32 = le::read_u32(b, off);
    let ins_n: u32 = le::read_u32(b, off + 4);
    let outs_n: u32 = le::read_u32(b, off + 8);
    let lists: usize = off + JOB_HEADER_LEN;
    if ((b.len() - lists) as u64) < tasks_n as u64 * 8 + (ins_n as u64 + outs_n as u64) * 4 {
        return Err(errno::EINVAL);
    }
    let ins_at: usize = lists + 8 * tasks_n as usize;
    let outs_at: usize = ins_at + 4 * ins_n as usize;
    let end: usize = outs_at + 4 * outs_n as usize;
    let tasks = read_tasks(b, lists, tasks_n as usize);
    let ins = match translate(bos, b, ins_at, ins_n as usize) {
        Ok(v) => v,
        Err(e) => {
            return Err(e);
        },
    };
    let outs = match translate(bos, b, outs_at, outs_n as usize) {
        Ok(v) => v,
        Err(e) => {
            return Err(e);
        },
    };
    let job = DrmRocketJob {
        task_count: tasks.len() as u32,
        task_struct_size: TASK_SIZE,
        in_bo_handle_count: ins.len() as u32,
        out_bo_handle_count: outs.len() as u32,
        tasks,
        in_bo_handles: ins,
        out_bo_handles: outs,
    };
    Ok((job, end))
}

/// Reads the jobs of a submission's body and puts the host's handles for the guest's ids. Nothing
/// is submitted unless every job is good.
pub fn read_submission(bos: &BoTable, b: &[u8], job_count: u32) -> (r: Result<DrmRocketSubmit, i32>)
    requires
        JOBS_OFFSET <= b.len(),
    ensures
        match r {
            Ok(submit) => submit.counted() && host_jobs(bos@, b@, job_count as nat) == Ok::<
                Seq<JobView>,
                i32,
            >(submit@),
            Err(e) => host_jobs(bos@, b@, job_count as nat) == Err::<Seq<JobView>, i32>(e),
        },
{
    let mut jobs: Vec<DrmRocketJob> = Vec::new();
    let mut off: usize = JOBS_OFFSET;
    let mut k: u32 = 0;
    assert(jobs@.map_values(|job: DrmRocketJob| job@) =~= Seq::empty());
    while k < job_count
        invariant
            k <= job_count,
            off <= b.len(),
            off == job_start(b@, k as nat),
            jobs@.len() == k,
            forall|i: int| 0 <= i < jobs@.len() ==> (#[trigger] jobs@[i]).counted(),
            host_jobs(bos@, b@, k as nat) == Ok::<Seq<JobView>, i32>(
                jobs@.map_values(|job: DrmRocketJob| job@),
            ),
        decreases job_count - k,
    {
        let ghost before = jobs@;
        match read_job(bos, b, off) {
            Ok((job, end)) => {
                assert(job@ == host_job(bos@, b@, k as nat));
                jobs.push(job);
                off = end;
                assert(jobs@.map_values(|job: DrmRocketJob| job@) =~= before.map_values(
                    |job: DrmRocketJob| job@,
                ).push(job@));
            },
            Err(e) => {
                proof {
                    assert(fault(bos@, b@, k as nat) == Some(e));
                    lemma_fault_stays(bos@, b@, k as nat, job_count as nat, e);
                }
                return Err(e);
            },
        }
        k = k + 1;
    }
    Ok(DrmRocketSubmit { jobs, job_count, job_struct_size: JOB_SIZE, reserved: 0 })
}

/// What is wrong with the first bad job decides, however many jobs follow.
proof fn lemma_fault_stays(bos: Map<u32, BoView>, b: Seq<u8>, k: nat, n: nat, e: i32)
    requires
        host_jobs(bos, b, k) is Ok,
        fault(bos, b, k) == Some(e),
        k < n,
    ensures
        host_jobs(bos, b, n) == Err::<Seq<JobView>, i32>(e),
    decreases n,
{
    if n > k + 1 {
        lemma_fault_stays(bos, b, k, (n - 1) as nat, e);
    }
}

} // verus!
