//! Requests as the guest's driver writes them, and what the device makes of them.

use vstd::prelude::*;

use crate::bo::BoView;
use crate::le;
use crate::rocket::{DrmRocketTask, JobView};
use crate::submit;
use crate::wire;
use crate::wire::RequestView;

verus! {

/// Words of 32 bits, one behind the other.
pub open spec fn le32s(words: Seq<u32>) -> Seq<u8>
    decreases words.len(),
{
    if words.len() == 0 {
        Seq::empty()
    } else {
        le32s(words.drop_last()) + le::le32(words.last())
    }
}

/// Words of 64 bits, one behind the other.
pub open spec fn le64s(words: Seq<u64>) -> Seq<u8>
    decreases words.len(),
{
    if words.len() == 0 {
        Seq::empty()
    } else {
        le64s(words.drop_last()) + le::le64(words.last())
    }
}

/// A request as bytes. `length` is the length that its header says, `pad` the word that is ignored,
/// and `jobs` the jobs of a submission.
pub open spec fn encode(r: RequestView, length: u32, pad: u32, jobs: Seq<u8>) -> Seq<u8> {
    match r {
        RequestView::CreateBo { size, gid, gpas } => le32s(
            seq![wire::OP_CREATE_BO, length, size, gpas.len() as u32, gid, pad],
        ) + le64s(gpas),
        RequestView::DestroyBo { gid } => le32s(seq![wire::OP_DESTROY_BO, length, gid]),
        RequestView::Submit { job_count } => le32s(
            seq![wire::OP_SUBMIT, length, job_count, pad],
        ) + jobs,
        RequestView::PrepBo { gid, timeout_ns } => le32s(
            seq![wire::OP_PREP_BO, length, gid, pad],
        ) + le::le64(le::unsigned64(timeout_ns)),
        RequestView::FiniBo { gid } => le32s(seq![wire::OP_FINI_BO, length, gid]),
    }
}

/// Words read back one by one.
proof fn lemma_le32s(before: Seq<u8>, words: Seq<u32>, after: Seq<u8>)
    ensures
        le32s(words).len() == 4 * words.len(),
        forall|i: int|
            0 <= i < words.len() ==> #[trigger] le::u32_at(
                before + le32s(words) + after,
                before.len() + 4 * i,
            ) == words[i],
        wire::u32s(before + le32s(words) + after, before.len() as int, words.len()) =~= words,
    decreases words.len(),
{
    let s = before + le32s(words) + after;
    if words.len() > 0 {
        let init = words.drop_last();
        let last = words.last();
        lemma_le32s(before, init, le::le32(last) + after);
        le::law_u32_round_trip(before + le32s(init), last, after);
        assert(s =~= before + le32s(init) + (le::le32(last) + after));
        assert(s =~= before + le32s(init) + le::le32(last) + after);
        assert forall|i: int| 0 <= i < words.len() implies #[trigger] le::u32_at(
            s,
            before.len() + 4 * i,
        ) == words[i] by {
            if i < init.len() {
                assert(le::u32_at(
                    before + le32s(init) + (le::le32(last) + after),
                    before.len() + 4 * i,
                ) == init[i]);
            } else {
                assert((before + le32s(init)).len() == before.len() + 4 * i);
            }
        }
    }
    assert forall|i: int| 0 <= i < words.len() implies wire::u32s(
        s,
        before.len() as int,
        words.len(),
    )[i] == words[i] by {
        assert(le::u32_at(s, before.len() + 4 * i) == words[i]);
    }
}

/// Words of 64 bits read back one by one.
proof fn lemma_le64s(before: Seq<u8>, words: Seq<u64>, after: Seq<u8>)
    ensures
        le64s(words).len() == 8 * words.len(),
        forall|i: int|
            0 <= i < words.len() ==> #[trigger] le::u64_at(
                before + le64s(words) + after,
                before.len() + 8 * i,
            ) == words[i],
        wire::u64s(before + le64s(words) + after, before.len() as int, words.len()) =~= words,
    decreases words.len(),
{
    let s = before + le64s(words) + after;
    if words.len() > 0 {
        let init = words.drop_last();
        let last = words.last();
        lemma_le64s(before, init, le::le64(last) + after);
        le::law_u64_round_trip(before + le64s(init), last, after);
        assert(s =~= before + le64s(init) + (le::le64(last) + after));
        assert(s =~= before + le64s(init) + le::le64(last) + after);
        assert forall|i: int| 0 <= i < words.len() implies #[trigger] le::u64_at(
            s,
            before.len() + 8 * i,
        ) == words[i] by {
            if i < init.len() {
                assert(le::u64_at(
                    before + le64s(init) + (le::le64(last) + after),
                    before.len() + 8 * i,
                ) == init[i]);
            } else {
                assert((before + le64s(init)).len() == before.len() + 8 * i);
            }
        }
    }
    assert forall|i: int| 0 <= i < words.len() implies wire::u64s(
        s,
        before.len() as int,
        words.len(),
    )[i] == words[i] by {
        assert(le::u64_at(s, before.len() + 8 * i) == words[i]);
    }
}

/// A word of the body stands behind the header in the request.
pub proof fn lemma_body_word(req: Seq<u8>, i: int)
    requires
        req.len() >= wire::HEADER_LEN,
        0 <= i,
        i + 4 + wire::HEADER_LEN <= req.len(),
    ensures
        le::u32_at(wire::body(req), i) == le::u32_at(req, i + wire::HEADER_LEN),
        i + 8 + wire::HEADER_LEN <= req.len() ==> le::u64_at(wire::body(req), i) == le::u64_at(
            req,
            i + wire::HEADER_LEN,
        ),
{
    let b = wire::body(req);
    assert(b[i] == req[i + 8] && b[i + 1] == req[i + 9] && b[i + 2] == req[i + 10] && b[i + 3]
        == req[i + 11]);
    if i + 16 <= req.len() {
        assert(b[i + 4] == req[i + 12] && b[i + 5] == req[i + 13] && b[i + 6] == req[i + 14] && b[i
            + 7] == req[i + 15]);
    }
}

/// The words that a request starts with: the opcode, and behind the header word `i`.
proof fn lemma_head(words: Seq<u32>, rest: Seq<u8>, after: Seq<u8>, i: int)
    requires
        2 <= i < words.len(),
    ensures
        ({
            let req = le32s(words) + rest + after;
            &&& req.len() == 4 * words.len() + rest.len() + after.len()
            &&& le::u32_at(req, 0) == words[0]
            &&& le::u32_at(wire::body(req), 4 * (i - 2)) == words[i]
        }),
{
    let none = Seq::<u8>::empty();
    let req = le32s(words) + rest + after;
    lemma_le32s(none, words, rest + after);
    assert(req =~= none + le32s(words) + (rest + after));
    assert(le::u32_at(req, none.len() as int + 4 * 0) == words[0]);
    assert(le::u32_at(req, none.len() as int + 4 * i) == words[i]);
    lemma_body_word(req, 4 * (i - 2));
}

/// The page addresses behind the six words that a request for a buffer object starts with.
proof fn lemma_gpas(words: Seq<u32>, gpas: Seq<u64>, after: Seq<u8>)
    requires
        words.len() == 6,
    ensures
        le64s(gpas).len() == 8 * gpas.len(),
        wire::u64s(wire::body(le32s(words) + le64s(gpas) + after), 16, gpas.len()) == gpas,
{
    let none = Seq::<u8>::empty();
    let req = le32s(words) + le64s(gpas) + after;
    lemma_le32s(none, words, none);
    lemma_le64s(le32s(words), gpas, after);
    let b = wire::body(req);
    assert forall|i: int| 0 <= i < gpas.len() implies #[trigger] wire::u64s(b, 16, gpas.len())[i]
        == gpas[i] by {
        lemma_body_word(req, 16 + 8 * i);
        assert(le::u64_at(req, le32s(words).len() + 8 * i) == gpas[i]);
    }
    assert(wire::u64s(b, 16, gpas.len()) =~= gpas);
}

/// The timeout behind the four words that a request to wait starts with.
proof fn lemma_timeout(words: Seq<u32>, timeout: u64, after: Seq<u8>)
    requires
        words.len() == 4,
    ensures
        le::u64_at(wire::body(le32s(words) + le::le64(timeout) + after), 8) == timeout,
{
    let none = Seq::<u8>::empty();
    lemma_le32s(none, words, none);
    le::law_u64_round_trip(le32s(words), timeout, after);
    lemma_body_word(le32s(words) + le::le64(timeout) + after, 8);
}

proof fn lemma_create(size: u32, gid: u32, gpas: Seq<u64>, length: u32, pad: u32, after: Seq<u8>)
    requires
        gpas.len() <= u32::MAX,
    ensures
        ({
            let words = seq![wire::OP_CREATE_BO, length, size, gpas.len() as u32, gid, pad];
            wire::decode(le32s(words) + le64s(gpas) + after) == Some(
                RequestView::CreateBo { size, gid, gpas },
            )
        }),
{
    let words = seq![wire::OP_CREATE_BO, length, size, gpas.len() as u32, gid, pad];
    lemma_gpas(words, gpas, after);
    lemma_head(words, le64s(gpas), after, 2);
    lemma_head(words, le64s(gpas), after, 3);
    lemma_head(words, le64s(gpas), after, 4);
}

proof fn lemma_prep(gid: u32, timeout_ns: i64, length: u32, pad: u32, after: Seq<u8>)
    ensures
        ({
            let words = seq![wire::OP_PREP_BO, length, gid, pad];
            wire::decode(le32s(words) + le::le64(le::unsigned64(timeout_ns)) + after) == Some(
                RequestView::PrepBo { gid, timeout_ns },
            )
        }),
{
    let words = seq![wire::OP_PREP_BO, length, gid, pad];
    let timeout = le::unsigned64(timeout_ns);
    lemma_timeout(words, timeout, after);
    lemma_head(words, le::le64(timeout), after, 2);
    le::law_signs(timeout_ns, 0);
}

/// What the driver writes is what the device reads, whatever the header says of the length, whatever
/// stands in the word that is ignored, and whatever follows.
pub proof fn law_request_round_trip(
    r: RequestView,
    length: u32,
    pad: u32,
    jobs: Seq<u8>,
    after: Seq<u8>,
)
    requires
        r matches RequestView::CreateBo { gpas, .. } ==> gpas.len() <= u32::MAX,
    ensures
        wire::decode(encode(r, length, pad, jobs) + after) == Some(r),
{
    let none = Seq::<u8>::empty();
    match r {
        RequestView::CreateBo { size, gid, gpas } => {
            lemma_create(size, gid, gpas, length, pad, after);
        },
        RequestView::DestroyBo { gid } => {
            let words = seq![wire::OP_DESTROY_BO, length, gid];
            lemma_head(words, none, after, 2);
            assert(le32s(words) + none =~= le32s(words));
        },
        RequestView::Submit { job_count } => {
            lemma_head(seq![wire::OP_SUBMIT, length, job_count, pad], jobs, after, 2);
        },
        RequestView::PrepBo { gid, timeout_ns } => {
            lemma_prep(gid, timeout_ns, length, pad, after);
        },
        RequestView::FiniBo { gid } => {
            let words = seq![wire::OP_FINI_BO, length, gid];
            lemma_head(words, none, after, 2);
            assert(le32s(words) + none =~= le32s(words));
        },
    }
}

// ---- jobs ----

/// A job as the guest sees it: the lists of buffer objects hold its own ids.
pub ghost struct GuestJob {
    pub tasks: Seq<DrmRocketTask>,
    pub ins: Seq<u32>,
    pub outs: Seq<u32>,
}

impl GuestJob {
    /// The counts fit into words, and every id names a buffer object.
    pub open spec fn good(self, bos: Map<u32, BoView>) -> bool {
        &&& self.tasks.len() <= u32::MAX
        &&& self.ins.len() <= u32::MAX
        &&& self.outs.len() <= u32::MAX
        &&& submit::all_known(bos, self.ins)
        &&& submit::all_known(bos, self.outs)
    }

    /// The job with the host's handles.
    pub open spec fn on_host(self, bos: Map<u32, BoView>) -> JobView {
        JobView {
            tasks: self.tasks,
            ins: submit::handles(bos, self.ins),
            outs: submit::handles(bos, self.outs),
        }
    }
}

/// Tasks, one behind the other.
pub open spec fn encode_tasks(tasks: Seq<DrmRocketTask>) -> Seq<u8>
    decreases tasks.len(),
{
    if tasks.len() == 0 {
        Seq::empty()
    } else {
        encode_tasks(tasks.drop_last()) + le32s(
            seq![tasks.last().regcmd, tasks.last().regcmd_count],
        )
    }
}

/// A job as bytes; `pad` is the word that is ignored.
pub open spec fn encode_job(job: GuestJob, pad: u32) -> Seq<u8> {
    le32s(
        seq![job.tasks.len() as u32, job.ins.len() as u32, job.outs.len() as u32, pad],
    ) + encode_tasks(job.tasks) + le32s(job.ins) + le32s(job.outs)
}

/// Jobs, one behind the other.
pub open spec fn encode_jobs(jobs: Seq<GuestJob>, pad: u32) -> Seq<u8>
    decreases jobs.len(),
{
    if jobs.len() == 0 {
        Seq::empty()
    } else {
        encode_jobs(jobs.drop_last(), pad) + encode_job(jobs.last(), pad)
    }
}

/// Tasks read back one by one.
proof fn lemma_tasks(before: Seq<u8>, tasks: Seq<DrmRocketTask>, after: Seq<u8>)
    ensures
        encode_tasks(tasks).len() == 8 * tasks.len(),
        submit::tasks_at(
            before + encode_tasks(tasks) + after,
            before.len() as int,
            tasks.len(),
        ) =~= tasks,
    decreases tasks.len(),
{
    let s = before + encode_tasks(tasks) + after;
    if tasks.len() > 0 {
        let init = tasks.drop_last();
        let words = seq![tasks.last().regcmd, tasks.last().regcmd_count];
        lemma_tasks(before, init, le32s(words) + after);
        lemma_le32s(before + encode_tasks(init), words, after);
        assert(s =~= before + encode_tasks(init) + (le32s(words) + after));
        assert(s =~= before + encode_tasks(init) + le32s(words) + after);
        let base = (before + encode_tasks(init)).len() as int;
        let read = submit::tasks_at(s, before.len() as int, tasks.len());
        assert forall|i: int| 0 <= i < tasks.len() implies read[i] == tasks[i] by {
            if i < init.len() {
                assert(submit::tasks_at(s, before.len() as int, init.len())[i] == init[i]);
            } else {
                assert(base == before.len() + 8 * i);
                assert(le::u32_at(s, base + 4 * 0) == words[0]);
                assert(le::u32_at(s, base + 4 * 1) == words[1]);
            }
        }
    }
}

/// Four parts that follow each other among other bytes, taken one by one.
proof fn lemma_parts(
    before: Seq<u8>,
    a: Seq<u8>,
    b: Seq<u8>,
    c: Seq<u8>,
    d: Seq<u8>,
    after: Seq<u8>,
)
    ensures
        before + (a + b + c + d) + after == before + a + (b + c + d + after),
        before + (a + b + c + d) + after == before + a + b + (c + d + after),
        before + (a + b + c + d) + after == before + a + b + c + (d + after),
        before + (a + b + c + d) + after == before + a + b + c + d + after,
{
    let s = before + (a + b + c + d) + after;
    assert(s =~= before + a + (b + c + d + after));
    assert(s =~= before + a + b + (c + d + after));
    assert(s =~= before + a + b + c + (d + after));
    assert(s =~= before + a + b + c + d + after);
}

/// A job reads back as it was written, wherever it stands.
proof fn lemma_job(before: Seq<u8>, job: GuestJob, pad: u32, after: Seq<u8>, bos: Map<u32, BoView>)
    requires
        job.good(bos),
    ensures
        ({
            let s = before + encode_job(job, pad) + after;
            let off = before.len() as int;
            &&& submit::job_complete(s, off)
            &&& submit::job_len(s, off) == encode_job(job, pad).len()
            &&& submit::job_tasks(s, off) == job.tasks
            &&& submit::in_ids(s, off) == job.ins
            &&& submit::out_ids(s, off) == job.outs
        }),
{
    let s = before + encode_job(job, pad) + after;
    let off = before.len() as int;
    let words = seq![job.tasks.len() as u32, job.ins.len() as u32, job.outs.len() as u32, pad];
    let head = le32s(words);
    let tasks = encode_tasks(job.tasks);
    let ins = le32s(job.ins);
    let outs = le32s(job.outs);
    lemma_parts(before, head, tasks, ins, outs, after);
    lemma_le32s(before, words, tasks + ins + outs + after);
    assert(le::u32_at(s, off + 4 * 0) == words[0]);
    assert(le::u32_at(s, off + 4 * 1) == words[1]);
    assert(le::u32_at(s, off + 4 * 2) == words[2]);
    lemma_tasks(before + head, job.tasks, ins + outs + after);
    lemma_le32s(before + head + tasks, job.ins, outs + after);
    lemma_le32s(before + head + tasks + ins, job.outs, after);
}

/// Where the middle of three sequences is cut does not matter.
proof fn lemma_cut(a: Seq<u8>, b: Seq<u8>, c: Seq<u8>, d: Seq<u8>)
    ensures
        a + (b + c) + d == a + b + (c + d),
        a + (b + c) + d == a + b + c + d,
{
    assert(a + (b + c) + d =~= a + b + (c + d));
    assert(a + (b + c) + d =~= a + b + c + d);
}

/// What is skipped of a longer first part leaves the rest as it is.
proof fn lemma_skip(a: Seq<u8>, b: Seq<u8>, c: Seq<u8>, n: int)
    requires
        0 <= n <= a.len(),
    ensures
        (a + b + c).skip(n) == a.skip(n) + b + c,
{
    assert((a + b + c).skip(n) =~= a.skip(n) + b + c);
}

/// One more good job at the end of those read so far.
proof fn lemma_one_more(
    bos: Map<u32, BoView>,
    b: Seq<u8>,
    jobs: Seq<GuestJob>,
    job: GuestJob,
)
    requires
        job.good(bos),
        submit::host_jobs(bos, b, jobs.len()) == Ok::<Seq<JobView>, i32>(
            jobs.map_values(|job: GuestJob| job.on_host(bos)),
        ),
        submit::job_complete(b, submit::job_start(b, jobs.len())),
        submit::job_tasks(b, submit::job_start(b, jobs.len())) == job.tasks,
        submit::in_ids(b, submit::job_start(b, jobs.len())) == job.ins,
        submit::out_ids(b, submit::job_start(b, jobs.len())) == job.outs,
    ensures
        submit::job_start(b, jobs.len() + 1) == submit::job_start(b, jobs.len())
            + submit::job_len(b, submit::job_start(b, jobs.len())),
        submit::host_jobs(bos, b, jobs.len() + 1) == Ok::<Seq<JobView>, i32>(
            jobs.push(job).map_values(|job: GuestJob| job.on_host(bos)),
        ),
{
    assert(jobs.push(job).map_values(|job: GuestJob| job.on_host(bos)) =~= jobs.map_values(
        |job: GuestJob| job.on_host(bos),
    ).push(job.on_host(bos)));
}

/// Jobs read back one by one.
proof fn lemma_jobs(
    head: Seq<u8>,
    jobs: Seq<GuestJob>,
    pad: u32,
    after: Seq<u8>,
    bos: Map<u32, BoView>,
)
    requires
        head.len() == submit::JOBS_OFFSET,
        forall|i: int| 0 <= i < jobs.len() ==> (#[trigger] jobs[i]).good(bos),
    ensures
        ({
            let b = head + encode_jobs(jobs, pad) + after;
            &&& submit::job_start(b, jobs.len()) == head.len() + encode_jobs(jobs, pad).len()
            &&& submit::host_jobs(bos, b, jobs.len()) == Ok::<Seq<JobView>, i32>(
                jobs.map_values(|job: GuestJob| job.on_host(bos)),
            )
        }),
    decreases jobs.len(),
{
    if jobs.len() == 0 {
        assert(jobs.map_values(|job: GuestJob| job.on_host(bos)) =~= Seq::empty());
    } else {
        let init = jobs.drop_last();
        let last = jobs.last();
        let bytes = encode_job(last, pad);
        let b = head + encode_jobs(jobs, pad) + after;
        assert(jobs[jobs.len() - 1].good(bos));
        assert forall|i: int| 0 <= i < init.len() implies (#[trigger] init[i]).good(bos) by {
            assert(jobs[i].good(bos));
        }
        lemma_jobs(head, init, pad, bytes + after, bos);
        lemma_cut(head, encode_jobs(init, pad), bytes, after);
        lemma_job(head + encode_jobs(init, pad), last, pad, after, bos);
        lemma_one_more(bos, b, init, last);
        assert(init.push(last) =~= jobs);
    }
}

/// A submission that the driver writes reaches the host job by job: the same tasks, and for each of
/// the guest's ids the handle of the buffer object that it names.
pub proof fn law_submission_round_trip(
    bos: Map<u32, BoView>,
    jobs: Seq<GuestJob>,
    length: u32,
    pad: u32,
    after: Seq<u8>,
)
    requires
        jobs.len() <= u32::MAX,
        forall|i: int| 0 <= i < jobs.len() ==> (#[trigger] jobs[i]).good(bos),
    ensures
        ({
            let r = RequestView::Submit { job_count: jobs.len() as u32 };
            let req = encode(r, length, pad, encode_jobs(jobs, pad)) + after;
            &&& wire::decode(req) == Some(r)
            &&& submit::host_jobs(bos, wire::body(req), jobs.len()) == Ok::<Seq<JobView>, i32>(
                jobs.map_values(|job: GuestJob| job.on_host(bos)),
            )
        }),
{
    let n = jobs.len() as u32;
    let r = RequestView::Submit { job_count: n };
    let bytes = encode_jobs(jobs, pad);
    let req = encode(r, length, pad, bytes) + after;
    law_request_round_trip(r, length, pad, bytes, after);
    let words = seq![wire::OP_SUBMIT, length, n, pad];
    let none = Seq::<u8>::empty();
    lemma_le32s(none, words, bytes + after);
    lemma_skip(le32s(words), bytes, after, 8);
    lemma_jobs(le32s(words).skip(8), jobs, pad, after, bos);
}

} // verus!
