//! What holds of requests from beginning to end.

use vstd::prelude::*;

use crate::bo;
use crate::bo::{BoMapping, BoView};
use crate::errno;
use crate::le;
use crate::request;
use crate::request::{Answer, HostCallView, PendingView, StepView};
use crate::rocket::{DrmGemClose, DrmRocketCreateBo, DrmRocketFiniBo, DrmRocketPrepBo};
use crate::submit;
use crate::wire;

verus! {

/// The table and the step after answers came in, one for each call, until there is a reply.
pub open spec fn run(bos: Map<u32, BoView>, step: StepView, answers: Seq<Answer>) -> (
    Map<u32, BoView>,
    StepView,
)
    decreases answers.len(),
{
    match step {
        StepView::Reply(_) => (bos, step),
        StepView::Call(pending, _) => if answers.len() == 0 {
            (bos, step)
        } else {
            let after = request::next(bos, pending, answers[0]);
            run(after.0, after.1, answers.skip(1))
        },
    }
}

/// Every answer that is used is to the call that is outstanding.
pub open spec fn fitting(bos: Map<u32, BoView>, step: StepView, answers: Seq<Answer>) -> bool
    decreases answers.len(),
{
    match step {
        StepView::Reply(_) => true,
        StepView::Call(pending, _) => answers.len() == 0 || {
            let after = request::next(bos, pending, answers[0]);
            &&& request::answers(pending, answers[0])
            &&& fitting(after.0, after.1, answers.skip(1))
        },
    }
}

/// A request as a whole: the table and the step after it came in and the answers came in.
pub open spec fn serve(bos: Map<u32, BoView>, req: Seq<u8>, answers: Seq<Answer>) -> (
    Map<u32, BoView>,
    StepView,
) {
    run(request::start(bos, req).0, request::start(bos, req).1, answers)
}

/// The answers are to the calls that the request makes.
pub open spec fn served_by(bos: Map<u32, BoView>, req: Seq<u8>, answers: Seq<Answer>) -> bool {
    fitting(request::start(bos, req).0, request::start(bos, req).1, answers)
}

// ---- progress ----

/// How many answers a step still takes at most.
pub open spec fn calls_left(bos: Map<u32, BoView>, step: StepView) -> nat {
    match step {
        StepView::Reply(_) => 0,
        StepView::Call(pending, _) => match pending {
            PendingView::Create { .. } => 3,
            PendingView::Mmap { .. } => 2,
            PendingView::Discard => 1,
            PendingView::Destroy { .. } => 2,
            PendingView::Release { .. } => 1,
            PendingView::CopyIn { gid, page } => (bos[gid].gpas.len() - page + 1) as nat,
            PendingView::Fini => 1,
            PendingView::Prep { gid } => bos[gid].gpas.len() + 1,
            PendingView::CopyOut { gid, page } => (bos[gid].gpas.len() - page) as nat,
            PendingView::Submit => 1,
        },
    }
}

/// Every answer brings a request closer to its reply, and leaves it where it can go on.
proof fn lemma_progress(
    bos: Map<u32, BoView>,
    pending: PendingView,
    call: HostCallView,
    answer: Answer,
)
    requires
        request::can_resume(bos, pending),
        request::answers(pending, answer),
    ensures
        ({
            let after = request::next(bos, pending, answer);
            &&& calls_left(after.0, after.1) < calls_left(bos, StepView::Call(pending, call))
            &&& request::step_can_resume(after.0, after.1)
        }),
{
}

proof fn lemma_run_answers(bos: Map<u32, BoView>, step: StepView, answers: Seq<Answer>)
    requires
        request::step_can_resume(bos, step),
        fitting(bos, step, answers),
    ensures
        request::step_can_resume(run(bos, step, answers).0, run(bos, step, answers).1),
        answers.len() >= calls_left(bos, step) ==> run(bos, step, answers).1 is Reply,
    decreases answers.len(),
{
    if let StepView::Call(pending, call) = step {
        if answers.len() > 0 {
            let after = request::next(bos, pending, answers[0]);
            lemma_progress(bos, pending, call, answers[0]);
            lemma_run_answers(after.0, after.1, answers.skip(1));
        }
    }
}

/// A request never gets stuck, and it is answered after as many host calls as `calls_left` says at
/// most: three for making a buffer object, one more than there are pages for bringing one across.
pub proof fn law_every_request_is_answered(
    bos: Map<u32, BoView>,
    req: Seq<u8>,
    answers: Seq<Answer>,
)
    requires
        served_by(bos, req, answers),
    ensures
        request::step_can_resume(serve(bos, req, answers).0, serve(bos, req, answers).1),
        answers.len() >= calls_left(request::start(bos, req).0, request::start(bos, req).1)
            ==> serve(bos, req, answers).1 is Reply,
{
    lemma_run_answers(request::start(bos, req).0, request::start(bos, req).1, answers);
}

// ---- copies ----

/// A copy that the step asks for is that of a page of a buffer object of the table, and stays within
/// the bytes that are mapped for it and within those that the guest asked for.
pub open spec fn copy_within(bos: Map<u32, BoView>, step: StepView) -> bool {
    match step {
        StepView::Call(PendingView::CopyIn { gid, page }, HostCallView::CopyIn(copy)) => {
            &&& bos.contains_key(gid) && 0 <= page < bos[gid].gpas.len()
            &&& copy.gpa == bos[gid].gpas[page]
            &&& copy.va == bos[gid].va
            &&& copy.offset + copy.len <= bos[gid].mapped
            &&& copy.offset + copy.len <= bos[gid].size
        },
        StepView::Call(PendingView::CopyOut { gid, page }, HostCallView::CopyOut(copy)) => {
            &&& bos.contains_key(gid) && 0 <= page < bos[gid].gpas.len()
            &&& copy.gpa == bos[gid].gpas[page]
            &&& copy.va == bos[gid].va
            &&& copy.offset + copy.len <= bos[gid].mapped
            &&& copy.offset + copy.len <= bos[gid].size
        },
        StepView::Call(_, HostCallView::CopyIn(_)) => false,
        StepView::Call(_, HostCallView::CopyOut(_)) => false,
        _ => true,
    }
}

proof fn lemma_run_copies_within(bos: Map<u32, BoView>, step: StepView, answers: Seq<Answer>)
    requires
        copy_within(bos, step),
        request::step_can_resume(bos, step),
        fitting(bos, step, answers),
    ensures
        copy_within(run(bos, step, answers).0, run(bos, step, answers).1),
    decreases answers.len(),
{
    if let StepView::Call(pending, call) = step {
        if answers.len() > 0 {
            let after = request::next(bos, pending, answers[0]);
            lemma_progress(bos, pending, call, answers[0]);
            assert(copy_within(after.0, after.1));
            lemma_run_copies_within(after.0, after.1, answers.skip(1));
        }
    }
}

/// Whatever the request and whatever the host does, nothing is copied to or from memory that lies
/// outside of the mapping of a buffer object of the guest, however many pages the guest gave for it
/// and whatever size the driver made it.
pub proof fn law_copies_stay_in_the_mapping(
    bos: Map<u32, BoView>,
    req: Seq<u8>,
    answers: Seq<Answer>,
)
    requires
        served_by(bos, req, answers),
    ensures
        copy_within(serve(bos, req, answers).0, serve(bos, req, answers).1),
{
    let first = request::start(bos, req);
    lemma_run_copies_within(first.0, first.1, answers);
}

// ---- replies ----

/// A reply's second word is its length, which is that of a header or of a header and an address.
pub open spec fn framed(reply: Seq<u8>) -> bool {
    &&& reply.len() == 8 || reply.len() == 16
    &&& le::u32_at(reply, 4) == reply.len()
}

/// A reply's first word.
pub open spec fn status(reply: Seq<u8>) -> u32 {
    le::u32_at(reply, 0)
}

/// What a reply says can be read off its bytes.
pub proof fn law_reply_fields(s: u32, payload: Seq<u8>)
    requires
        payload.len() + wire::HEADER_LEN <= u32::MAX,
    ensures
        status(wire::reply(s, payload)) == s,
        le::u32_at(wire::reply(s, payload), 4) == wire::reply(s, payload).len(),
        wire::reply(s, payload).skip(8) == payload,
{
    let len = (wire::HEADER_LEN + payload.len()) as u32;
    let r = wire::reply(s, payload);
    le::law_u32_round_trip(Seq::empty(), s, le::le32(len) + payload);
    le::law_u32_round_trip(le::le32(s), len, payload);
    assert(r =~= Seq::<u8>::empty() + le::le32(s) + (le::le32(len) + payload));
    assert(r =~= le::le32(s) + le::le32(len) + payload);
    assert(r.skip(8) =~= payload);
}

/// The three kinds of replies: done, failed with that number, or made at that address.
pub proof fn law_reply_kinds(e: i32, dma_address: u64)
    ensures
        framed(wire::success()) && status(wire::success()) == 0,
        framed(wire::failure(e)) && status(wire::failure(e)) == le::unsigned(e),
        e > 0 ==> status(wire::failure(e)) == e,
        framed(wire::created(dma_address)) && status(wire::created(dma_address)) == 0,
        le::u64_at(wire::created(dma_address), 8) == dma_address,
{
    law_reply_fields(0, Seq::empty());
    law_reply_fields(le::unsigned(e), Seq::empty());
    law_reply_fields(0, le::le64(dma_address));
    le::law_u64_round_trip(le::le32(0) + le::le32(16), dma_address, Seq::empty());
    assert(wire::created(dma_address) =~= le::le32(0) + le::le32(16) + le::le64(dma_address)
        + Seq::<u8>::empty());
}

/// A step's reply, if it already has one, is framed.
spec fn framed_step(step: StepView) -> bool {
    match step {
        StepView::Reply(reply) => framed(reply),
        StepView::Call(PendingView::Release { reply }, _) => framed(reply),
        _ => true,
    }
}

proof fn lemma_next_framed(
    bos: Map<u32, BoView>,
    pending: PendingView,
    call: HostCallView,
    answer: Answer,
)
    requires
        framed_step(StepView::Call(pending, call)),
        request::answers(pending, answer),
    ensures
        framed_step(request::next(bos, pending, answer).1),
{
    law_reply_kinds(errno::EIO, 0);
    law_reply_kinds(errno::EFAULT, 0);
    law_reply_kinds(errno::ENOMEM, 0);
    match (pending, answer) {
        (PendingView::Mmap { args, .. }, _) => law_reply_kinds(0, args.dma_address),
        (_, Answer::Created { os_error: Some(e), .. }) => law_reply_kinds(e, 0),
        (_, Answer::Returned { os_error: Some(e), .. }) => law_reply_kinds(e, 0),
        _ => {},
    }
}

proof fn lemma_run_framed(bos: Map<u32, BoView>, step: StepView, answers: Seq<Answer>)
    requires
        framed_step(step),
        fitting(bos, step, answers),
    ensures
        framed_step(run(bos, step, answers).1),
    decreases answers.len(),
{
    if let StepView::Call(pending, call) = step {
        if answers.len() > 0 {
            let after = request::next(bos, pending, answers[0]);
            lemma_next_framed(bos, pending, call, answers[0]);
            lemma_run_framed(after.0, after.1, answers.skip(1));
        }
    }
}

/// Every reply says its own length, whatever the request and whatever the host does.
pub proof fn law_every_reply_is_framed(
    bos: Map<u32, BoView>,
    req: Seq<u8>,
    answers: Seq<Answer>,
)
    requires
        served_by(bos, req, answers),
    ensures
        serve(bos, req, answers).1 matches StepView::Reply(reply) ==> framed(reply),
{
    let first = request::start(bos, req);
    law_reply_kinds(errno::EINVAL, 0);
    law_reply_kinds(errno::ENOENT, 0);
    if let Some(wire::RequestView::Submit { job_count }) = wire::decode(req) {
        if let Err(e) = submit::host_jobs(bos, wire::body(req), job_count as nat) {
            law_reply_kinds(e, 0);
        }
    }
    assert(framed_step(first.1));
    lemma_run_framed(first.0, first.1, answers);
}

/// The request made a buffer object: it asked for one, the driver made it, and it could be mapped.
pub open spec fn create_succeeded(req: Seq<u8>, answers: Seq<Answer>) -> bool {
    &&& wire::decode(req) matches Some(wire::RequestView::CreateBo { .. })
    &&& answers.len() >= 2
    &&& answers[0] matches Answer::Created { ret, .. }
    &&& ret >= 0
    &&& answers[1] matches Answer::Mapped(Some(_))
}

/// A step's reply, if it already has one, is a header, and no buffer object is being made.
spec fn short_step(step: StepView) -> bool {
    match step {
        StepView::Reply(reply) => reply.len() == 8,
        StepView::Call(PendingView::Release { reply }, _) => reply.len() == 8,
        StepView::Call(PendingView::Create { .. }, _) => false,
        StepView::Call(PendingView::Mmap { .. }, _) => false,
        _ => true,
    }
}

proof fn lemma_run_short(bos: Map<u32, BoView>, step: StepView, answers: Seq<Answer>)
    requires
        short_step(step),
        fitting(bos, step, answers),
    ensures
        short_step(run(bos, step, answers).1),
    decreases answers.len(),
{
    if let StepView::Call(pending, call) = step {
        if answers.len() > 0 {
            let after = request::next(bos, pending, answers[0]);
            lemma_run_short(after.0, after.1, answers.skip(1));
        }
    }
}

/// A reply carries an address, and is sixteen bytes long, if and only if a buffer object was made.
pub proof fn law_only_creation_tells_an_address(
    bos: Map<u32, BoView>,
    req: Seq<u8>,
    answers: Seq<Answer>,
)
    requires
        served_by(bos, req, answers),
    ensures
        serve(bos, req, answers).1 matches StepView::Reply(reply) ==> (reply.len() == 16
            <==> create_succeeded(req, answers)),
{
    let first = request::start(bos, req);
    if let Some(wire::RequestView::CreateBo { .. }) = wire::decode(req) {
        reveal_with_fuel(run, 4);
        reveal_with_fuel(fitting, 4);
        let a1 = answers.skip(1);
        let a2 = a1.skip(1);
        assert(answers.len() >= 2 ==> a1[0] == answers[1]);
        assert(answers.len() >= 3 ==> a2[0] == answers[2]);
    } else {
        lemma_run_short(first.0, first.1, answers);
    }
}

/// The numbers under which the host reports failures are positive.
pub open spec fn positive_errors(answers: Seq<Answer>) -> bool {
    forall|i: int|
        0 <= i < answers.len() ==> match #[trigger] answers[i] {
            Answer::Created { os_error: Some(e), .. } => e > 0,
            Answer::Returned { os_error: Some(e), .. } => e > 0,
            _ => true,
        }
}

/// The reply says that the request was carried out, or fails it with a positive number.
pub open spec fn done_or_failed(reply: Seq<u8>) -> bool {
    ||| reply == wire::success()
    ||| exists|dma_address: u64| reply == #[trigger] wire::created(dma_address)
    ||| exists|e: i32| e > 0 && reply == #[trigger] wire::failure(e)
}

/// A step's reply, if it already has one, is of those kinds.
spec fn conventional(step: StepView) -> bool {
    match step {
        StepView::Reply(reply) => done_or_failed(reply),
        StepView::Call(PendingView::Release { reply }, _) => done_or_failed(reply),
        _ => true,
    }
}

proof fn lemma_run_conventional(bos: Map<u32, BoView>, step: StepView, answers: Seq<Answer>)
    requires
        conventional(step),
        positive_errors(answers),
        fitting(bos, step, answers),
    ensures
        conventional(run(bos, step, answers).1),
    decreases answers.len(),
{
    if let StepView::Call(pending, call) = step {
        if answers.len() > 0 {
            let after = request::next(bos, pending, answers[0]);
            let rest = answers.skip(1);
            assert forall|i: int| 0 <= i < rest.len() implies match #[trigger] rest[i] {
                Answer::Created { os_error: Some(e), .. } => e > 0,
                Answer::Returned { os_error: Some(e), .. } => e > 0,
                _ => true,
            } by {
                assert(rest[i] == answers[i + 1]);
            }
            lemma_run_conventional(after.0, after.1, rest);
        }
    }
}

/// The status of a reply is zero or a positive error number, if the host's error numbers are
/// positive; it is zero if and only if the request was carried out.
pub proof fn law_status_convention(bos: Map<u32, BoView>, req: Seq<u8>, answers: Seq<Answer>)
    requires
        served_by(bos, req, answers),
        positive_errors(answers),
    ensures
        serve(bos, req, answers).1 matches StepView::Reply(reply) ==> {
            &&& done_or_failed(reply)
            &&& status(reply) <= i32::MAX
            &&& status(reply) == 0 <==> reply == wire::success() || exists|dma_address: u64|
                reply == #[trigger] wire::created(dma_address)
        },
{
    let first = request::start(bos, req);
    if let Some(wire::RequestView::Submit { job_count }) = wire::decode(req) {
        submit::law_first_fault_decides(bos, wire::body(req), job_count as nat);
    }
    assert(conventional(first.1));
    lemma_run_conventional(first.0, first.1, answers);
    if let StepView::Reply(reply) = serve(bos, req, answers).1 {
        law_reply_kinds(1, 0);
        if exists|dma_address: u64| reply == #[trigger] wire::created(dma_address) {
            let d = choose|dma_address: u64| reply == #[trigger] wire::created(dma_address);
            law_reply_kinds(1, d);
        } else if reply != wire::success() {
            let e = choose|e: i32| e > 0 && reply == #[trigger] wire::failure(e);
            law_reply_kinds(e, 0);
        }
    }
}

// ---- the table ----

/// Where the table already differs, only a reply with status zero can follow.
spec fn committed(step: StepView) -> bool {
    match step {
        StepView::Reply(reply) => status(reply) == 0,
        StepView::Call(PendingView::Release { reply }, _) => status(reply) == 0,
        StepView::Call(PendingView::Destroy { .. }, _) => true,
        _ => false,
    }
}

proof fn lemma_run_commits(
    before: Map<u32, BoView>,
    bos: Map<u32, BoView>,
    step: StepView,
    answers: Seq<Answer>,
)
    requires
        bos == before || committed(step),
        fitting(bos, step, answers),
    ensures
        run(bos, step, answers).0 == before || committed(run(bos, step, answers).1),
    decreases answers.len(),
{
    if let StepView::Call(pending, call) = step {
        if answers.len() > 0 {
            let after = request::next(bos, pending, answers[0]);
            law_reply_kinds(0, 0);
            if let PendingView::Mmap { args, .. } = pending {
                law_reply_kinds(0, args.dma_address);
            }
            lemma_run_commits(before, after.0, after.1, answers.skip(1));
        }
    }
}

/// A request that is refused or fails, that is, whose reply has a status other than zero, leaves the
/// guest's buffer objects as they were.
pub proof fn law_failed_request_changes_nothing(
    bos: Map<u32, BoView>,
    req: Seq<u8>,
    answers: Seq<Answer>,
)
    requires
        served_by(bos, req, answers),
    ensures
        serve(bos, req, answers).1 matches StepView::Reply(reply) ==> status(reply) != 0
            ==> serve(bos, req, answers).0 == bos,
{
    let first = request::start(bos, req);
    lemma_run_commits(bos, first.0, first.1, answers);
}

/// The id that a request names for making or destroying, if it does.
pub open spec fn concerns(req: Seq<u8>, gid: u32) -> bool {
    match wire::decode(req) {
        Some(wire::RequestView::CreateBo { gid: named, .. }) => named == gid,
        Some(wire::RequestView::DestroyBo { gid: named }) => named == gid,
        _ => false,
    }
}

/// The id under which a step that stands there will enter a buffer object.
spec fn enters(step: StepView, gid: u32) -> bool {
    match step {
        StepView::Call(PendingView::Create { gid: named, .. }, _) => named == gid,
        StepView::Call(PendingView::Mmap { gid: named, .. }, _) => named == gid,
        _ => false,
    }
}

proof fn lemma_run_keeps_others(
    bos: Map<u32, BoView>,
    step: StepView,
    answers: Seq<Answer>,
    gid: u32,
)
    requires
        !enters(step, gid),
        fitting(bos, step, answers),
    ensures
        ({
            let after = run(bos, step, answers).0;
            &&& after.contains_key(gid) == bos.contains_key(gid)
            &&& bos.contains_key(gid) ==> after[gid] == bos[gid]
        }),
    decreases answers.len(),
{
    if let StepView::Call(pending, call) = step {
        if answers.len() > 0 {
            let after = request::next(bos, pending, answers[0]);
            lemma_run_keeps_others(after.0, after.1, answers.skip(1), gid);
        }
    }
}

/// A request touches no buffer object but the one that it makes or destroys.
pub proof fn law_other_buffer_objects_stay(
    bos: Map<u32, BoView>,
    req: Seq<u8>,
    answers: Seq<Answer>,
    gid: u32,
)
    requires
        !concerns(req, gid),
        served_by(bos, req, answers),
    ensures
        serve(bos, req, answers).0.contains_key(gid) == bos.contains_key(gid),
        bos.contains_key(gid) ==> serve(bos, req, answers).0[gid] == bos[gid],
{
    let first = request::start(bos, req);
    lemma_run_keeps_others(first.0, first.1, answers, gid);
}

/// The step has the mapping taken away: now, or as soon as the handle is closed.
pub open spec fn releases(step: StepView, bo: BoView) -> bool {
    match step {
        StepView::Call(PendingView::Release { .. }, call) => call == HostCallView::Unmap {
            va: bo.va,
            size: bo.mapped,
        },
        StepView::Call(PendingView::Destroy { va, len }, _) => va == bo.va && len == bo.mapped,
        _ => false,
    }
}

/// A buffer object that leaves the table, destroyed or replaced, has its mapping taken away, and a
/// mapping that waits for its handle to be closed is taken away then, whatever the driver returns.
pub proof fn law_what_leaves_is_unmapped(
    bos: Map<u32, BoView>,
    req: Seq<u8>,
    pending: PendingView,
    answer: Answer,
    gid: u32,
)
    requires
        bos.contains_key(gid),
        request::answers(pending, answer),
    ensures
        ({
            let first = request::start(bos, req);
            !first.0.contains_key(gid) || first.0[gid] != bos[gid] ==> releases(first.1, bos[gid])
        }),
        ({
            let after = request::next(bos, pending, answer);
            !after.0.contains_key(gid) || after.0[gid] != bos[gid] ==> releases(after.1, bos[gid])
        }),
        pending matches PendingView::Destroy { va, len } ==> request::next(bos, pending, answer).1
            == StepView::Call(
            PendingView::Release { reply: wire::success() },
            HostCallView::Unmap { va, size: len },
        ),
{
}

/// What was mapped for a buffer object is what is unmapped: as many bytes as the driver made it, from
/// where they were mapped, when it is destroyed and when another one takes its id; and that is what
/// is listed as its mapping until then. The size that the guest asked for does not matter.
pub proof fn law_what_was_mapped_is_unmapped(
    bos: Map<u32, BoView>,
    create: Seq<u8>,
    gid: u32,
    size: u32,
    gpas: Seq<u64>,
    made: DrmRocketCreateBo,
    va: usize,
    destroy: Seq<u8>,
    closed: Answer,
    again: Seq<u8>,
    size2: u32,
    gpas2: Seq<u64>,
    made2: DrmRocketCreateBo,
    va2: usize,
    ret: i32,
    os_error: Option<i32>,
    list: Seq<BoMapping>,
)
    requires
        wire::decode(create) == Some(wire::RequestView::CreateBo { size, gid, gpas }),
        wire::decode(destroy) == Some(wire::RequestView::DestroyBo { gid }),
        wire::decode(again) == Some(
            wire::RequestView::CreateBo { size: size2, gid, gpas: gpas2 },
        ),
        ret >= 0,
        closed is Returned,
    ensures
        ({
            let created = Answer::Created { ret, args: made, os_error };
            let created2 = Answer::Created { ret, args: made2, os_error };
            let after = serve(
                bos,
                create,
                seq![created, Answer::Mapped(Some(va)), Answer::Unmapped],
            ).0;
            let whole = HostCallView::Unmap { va, size: made.size as usize };
            &&& serve(bos, create, seq![created]).1 matches StepView::Call(_, HostCallView::Mmap(args))
            &&& args == request::bo_args(made) && args.len == made.size
            &&& serve(after, destroy, seq![closed]).1 matches StepView::Call(_, first)
            &&& first == whole
            &&& serve(after, again, seq![created2, Answer::Mapped(Some(va2))]).1 matches StepView::Call(
                _,
                second,
            )
            &&& second == whole
            &&& bo::lists_mappings(list, after) ==> list.contains(
                BoMapping { gid, va, size: made.size as usize },
            )
        }),
{
    reveal_with_fuel(run, 4);
    let created = Answer::Created { ret, args: made, os_error };
    let created2 = Answer::Created { ret, args: made2, os_error };
    let a = seq![created, Answer::Mapped(Some(va)), Answer::Unmapped];
    let b = seq![created2, Answer::Mapped(Some(va2))];
    assert(a.skip(1)[0] == a[1] && a.skip(1).skip(1)[0] == a[2] && b.skip(1)[0] == b[1]);
    let after = serve(bos, create, a).0;
    assert(after.contains_key(gid) && after[gid].va == va && after[gid].mapped == made.size);
    if bo::lists_mappings(list, after) {
        let i = choose|i: int| 0 <= i < list.len() && (#[trigger] list[i]).gid == gid;
        assert(list[i] == BoMapping { gid, va, size: made.size as usize });
    }
}

// ---- the five requests ----

/// A request that is not well formed is refused as invalid, and nothing else happens.
pub proof fn law_malformed_request(bos: Map<u32, BoView>, req: Seq<u8>)
    requires
        wire::decode(req) is None,
    ensures
        request::start(bos, req) == (bos, StepView::Reply(wire::failure(errno::EINVAL))),
{
}

/// Making a buffer object: the driver makes it, the host maps it, and the guest gets the address at
/// which the device sees it. The table then holds the new one under the guest's id.
pub proof fn law_create(
    bos: Map<u32, BoView>,
    req: Seq<u8>,
    size: u32,
    gid: u32,
    gpas: Seq<u64>,
    made: DrmRocketCreateBo,
    ret: i32,
    os_error: Option<i32>,
    va: usize,
)
    requires
        wire::decode(req) == Some(wire::RequestView::CreateBo { size, gid, gpas }),
        ret >= 0,
    ensures
        ({
            let answers = seq![
                Answer::Created { ret, args: made, os_error },
                Answer::Mapped(Some(va)),
                Answer::Unmapped,
            ];
            &&& served_by(bos, req, answers)
            &&& serve(bos, req, answers) == (
                bos.insert(
                    gid,
                    BoView {
                        handle: made.handle,
                        va,
                        size: size as usize,
                        mapped: made.size as usize,
                        gpas,
                    },
                ),
                StepView::Reply(wire::created(made.dma_address)),
            )
        }),
{
    reveal_with_fuel(run, 4);
    reveal_with_fuel(fitting, 4);
    let a = seq![
        Answer::Created { ret, args: made, os_error },
        Answer::Mapped(Some(va)),
        Answer::Unmapped,
    ];
    assert(a.skip(1)[0] == a[1] && a.skip(1).skip(1)[0] == a[2]);
}

/// A buffer object that the driver does not make is reported with the driver's number, and one that
/// the host cannot map is closed again and reported as lack of memory.
pub proof fn law_create_fails(
    bos: Map<u32, BoView>,
    req: Seq<u8>,
    size: u32,
    gid: u32,
    gpas: Seq<u64>,
    made: DrmRocketCreateBo,
    ret: i32,
    os_error: Option<i32>,
    closed: Answer,
)
    requires
        wire::decode(req) == Some(wire::RequestView::CreateBo { size, gid, gpas }),
        closed is Returned,
    ensures
        ret < 0 ==> serve(bos, req, seq![Answer::Created { ret, args: made, os_error }]) == (
            bos,
            StepView::Reply(wire::failure(request::reported(os_error))),
        ),
        ret >= 0 ==> {
            let made_it = Answer::Created { ret, args: made, os_error };
            &&& serve(bos, req, seq![made_it, Answer::Mapped(None)]) == (
                bos,
                StepView::Call(
                    PendingView::Discard,
                    HostCallView::Close(DrmGemClose { handle: made.handle, pad: 0 }),
                ),
            )
            &&& serve(bos, req, seq![made_it, Answer::Mapped(None), closed]) == (
                bos,
                StepView::Reply(wire::failure(errno::ENOMEM)),
            )
        },
{
    reveal_with_fuel(run, 4);
    let made_it = Answer::Created { ret, args: made, os_error };
    let a = seq![made_it, Answer::Mapped(None)];
    let b = seq![made_it, Answer::Mapped(None), closed];
    assert(a.skip(1)[0] == a[1] && b.skip(1)[0] == b[1] && b.skip(1).skip(1)[0] == b[2]);
}

/// Destroying a buffer object: it leaves the table, its handle is closed, then its mapping is taken
/// away, and the request succeeds whatever the driver says. An id that names nothing is no error.
pub proof fn law_destroy(bos: Map<u32, BoView>, req: Seq<u8>, gid: u32, closed: Answer)
    requires
        wire::decode(req) == Some(wire::RequestView::DestroyBo { gid }),
        closed is Returned,
    ensures
        !bos.contains_key(gid) ==> request::start(bos, req) == (
            bos,
            StepView::Reply(wire::success()),
        ),
        bos.contains_key(gid) ==> {
            let bo = bos[gid];
            &&& request::start(bos, req).1 matches StepView::Call(_, HostCallView::Close(args))
            &&& args == DrmGemClose { handle: bo.handle, pad: 0 }
            &&& serve(bos, req, seq![closed]).1 matches StepView::Call(_, unmap)
            &&& unmap == HostCallView::Unmap { va: bo.va, size: bo.mapped }
            &&& serve(bos, req, seq![closed, Answer::Unmapped]) == (
                bos.remove(gid),
                StepView::Reply(wire::success()),
            )
        },
{
    reveal_with_fuel(run, 3);
    let a = seq![closed, Answer::Unmapped];
    assert(a.skip(1)[0] == a[1]);
}

/// `n` copies that went through.
pub open spec fn copied(n: nat) -> Seq<Answer> {
    Seq::new(n, |i: int| Answer::Copied(true))
}

proof fn lemma_copies_in(bos: Map<u32, BoView>, gid: u32, from: nat, n: nat, rest: Seq<Answer>)
    requires
        from + n <= bos[gid].gpas.len(),
    ensures
        run(bos, request::copy_in(bos, gid, from as int), copied(n) + rest) == run(
            bos,
            request::copy_in(bos, gid, (from + n) as int),
            rest,
        ),
    decreases n,
{
    if n == 0 {
        assert(copied(0) + rest =~= rest);
    } else {
        let all = copied(n) + rest;
        assert(all[0] == Answer::Copied(true));
        assert(all.skip(1) =~= copied((n - 1) as nat) + rest);
        lemma_copies_in(bos, gid, from + 1, (n - 1) as nat, rest);
    }
}

proof fn lemma_copies_out(bos: Map<u32, BoView>, gid: u32, from: nat, n: nat, rest: Seq<Answer>)
    requires
        from + n <= bos[gid].gpas.len(),
    ensures
        run(bos, request::copy_out(bos, gid, from as int), copied(n) + rest) == run(
            bos,
            request::copy_out(bos, gid, (from + n) as int),
            rest,
        ),
    decreases n,
{
    if n == 0 {
        assert(copied(0) + rest =~= rest);
    } else {
        let all = copied(n) + rest;
        assert(all[0] == Answer::Copied(true));
        assert(all.skip(1) =~= copied((n - 1) as nat) + rest);
        lemma_copies_out(bos, gid, from + 1, (n - 1) as nat, rest);
    }
}

/// Handing a buffer object over: after `k` pages went through, page `k` is copied to the host; if
/// that fails the request fails with a bad address; after all pages the driver gets the handle, and
/// what it returns decides.
pub proof fn law_fini(
    bos: Map<u32, BoView>,
    req: Seq<u8>,
    gid: u32,
    k: nat,
    ret: i32,
    os_error: Option<i32>,
)
    requires
        wire::decode(req) == Some(wire::RequestView::FiniBo { gid }),
        bos.contains_key(gid),
        k <= bos[gid].gpas.len(),
    ensures
        k < bos[gid].gpas.len() ==> {
            &&& serve(bos, req, copied(k)) == (
                bos,
                StepView::Call(
                    PendingView::CopyIn { gid, page: k as int },
                    HostCallView::CopyIn(bos[gid].page_copy(k as int)),
                ),
            )
            &&& serve(bos, req, copied(k).push(Answer::Copied(false))) == (
                bos,
                StepView::Reply(wire::failure(errno::EFAULT)),
            )
        },
        k == bos[gid].gpas.len() ==> {
            &&& serve(bos, req, copied(k)) == (
                bos,
                StepView::Call(
                    PendingView::Fini,
                    HostCallView::FiniBo(DrmRocketFiniBo { handle: bos[gid].handle, reserved: 0 }),
                ),
            )
            &&& serve(bos, req, copied(k).push(Answer::Returned { ret, os_error })) == (
                bos,
                request::conclude(ret, os_error),
            )
        },
{
    let failed = seq![Answer::Copied(false)];
    let returned = seq![Answer::Returned { ret, os_error }];
    lemma_copies_in(bos, gid, 0, k, Seq::empty());
    lemma_copies_in(bos, gid, 0, k, failed);
    lemma_copies_in(bos, gid, 0, k, returned);
    assert(copied(k) + Seq::<Answer>::empty() =~= copied(k));
    assert(copied(k) + failed =~= copied(k).push(Answer::Copied(false)));
    assert(copied(k) + returned =~= copied(k).push(Answer::Returned { ret, os_error }));
    reveal_with_fuel(run, 2);
}

/// Waiting for a buffer object: the driver waits first, and if it fails nothing is copied; after
/// `k` pages went through, page `k` is copied to the guest; if that fails the request fails with a
/// bad address; after all pages it succeeds.
pub proof fn law_prep(
    bos: Map<u32, BoView>,
    req: Seq<u8>,
    gid: u32,
    timeout_ns: i64,
    k: nat,
    ret: i32,
    os_error: Option<i32>,
)
    requires
        wire::decode(req) == Some(wire::RequestView::PrepBo { gid, timeout_ns }),
        bos.contains_key(gid),
        k <= bos[gid].gpas.len(),
    ensures
        request::start(bos, req) == (
            bos,
            StepView::Call(
                PendingView::Prep { gid },
                HostCallView::PrepBo(
                    DrmRocketPrepBo { handle: bos[gid].handle, reserved: 0, timeout_ns },
                ),
            ),
        ),
        ret != 0 ==> serve(bos, req, seq![Answer::Returned { ret, os_error }]) == (
            bos,
            StepView::Reply(wire::failure(request::reported(os_error))),
        ),
        ret == 0 ==> {
            let waited = seq![Answer::Returned { ret, os_error }];
            if k < bos[gid].gpas.len() {
                &&& serve(bos, req, waited + copied(k)) == (
                    bos,
                    StepView::Call(
                        PendingView::CopyOut { gid, page: k as int },
                        HostCallView::CopyOut(bos[gid].page_copy(k as int)),
                    ),
                )
                &&& serve(bos, req, waited + copied(k).push(Answer::Copied(false))) == (
                    bos,
                    StepView::Reply(wire::failure(errno::EFAULT)),
                )
            } else {
                serve(bos, req, waited + copied(k)) == (bos, StepView::Reply(wire::success()))
            }
        },
{
    let waited = seq![Answer::Returned { ret, os_error }];
    let failed = seq![Answer::Copied(false)];
    assert(copied(k) + Seq::<Answer>::empty() =~= copied(k));
    assert(copied(k) + failed =~= copied(k).push(Answer::Copied(false)));
    assert((waited + copied(k)).skip(1) =~= copied(k));
    assert((waited + copied(k).push(Answer::Copied(false))).skip(1) =~= copied(k).push(
        Answer::Copied(false),
    ));
    if ret == 0 {
        lemma_copies_out(bos, gid, 0, k, Seq::empty());
        lemma_copies_out(bos, gid, 0, k, failed);
    }
    reveal_with_fuel(run, 2);
}

/// Submitting: if every job is complete and names buffer objects only, the driver gets all of them
/// at once, and what it returns decides; else nothing is submitted.
pub proof fn law_submit(
    bos: Map<u32, BoView>,
    req: Seq<u8>,
    job_count: u32,
    ret: i32,
    os_error: Option<i32>,
)
    requires
        wire::decode(req) == Some(wire::RequestView::Submit { job_count }),
    ensures
        match submit::host_jobs(bos, wire::body(req), job_count as nat) {
            Ok(jobs) => {
                &&& request::start(bos, req) == (
                    bos,
                    StepView::Call(PendingView::Submit, HostCallView::Submit(jobs)),
                )
                &&& serve(bos, req, seq![Answer::Returned { ret, os_error }]) == (
                    bos,
                    request::conclude(ret, os_error),
                )
            },
            Err(e) => request::start(bos, req) == (bos, StepView::Reply(wire::failure(e))),
        },
{
    reveal_with_fuel(run, 2);
}

// ---- requests that follow each other ----

/// After a buffer object was made, the other requests reach it by its id: handing it over copies the
/// pages that the guest gave, to where the host mapped it; waiting for it passes its handle.
pub proof fn law_created_buffer_object_is_reached(
    bos: Map<u32, BoView>,
    size: u32,
    gid: u32,
    gpas: Seq<u64>,
    made: DrmRocketCreateBo,
    va: usize,
    fini: Seq<u8>,
    prep: Seq<u8>,
    timeout_ns: i64,
)
    requires
        wire::decode(fini) == Some(wire::RequestView::FiniBo { gid }),
        wire::decode(prep) == Some(wire::RequestView::PrepBo { gid, timeout_ns }),
    ensures
        ({
            let after = request::enter(bos, size, gid, gpas, made, va).0;
            &&& after[gid] == (BoView {
                handle: made.handle,
                va,
                size: size as usize,
                mapped: made.size as usize,
                gpas,
            })
            &&& request::start(after, fini) == (after, request::copy_in(after, gid, 0))
            &&& request::start(after, prep).1 matches StepView::Call(_, HostCallView::PrepBo(args))
            &&& args.handle == made.handle && args.timeout_ns == timeout_ns
            &&& forall|i: int|
                0 <= i < gpas.len() ==> (#[trigger] after[gid].page_copy(i)).gpa == gpas[i]
                    && after[gid].page_copy(i).va == va
        }),
{
}

/// After a buffer object was destroyed, its id names nothing: handing it over, waiting for it and
/// submitting a job that names it are refused.
pub proof fn law_destroyed_buffer_object_is_gone(
    bos: Map<u32, BoView>,
    gid: u32,
    fini: Seq<u8>,
    prep: Seq<u8>,
    timeout_ns: i64,
    b: Seq<u8>,
    n: nat,
    k: nat,
)
    requires
        wire::decode(fini) == Some(wire::RequestView::FiniBo { gid }),
        wire::decode(prep) == Some(wire::RequestView::PrepBo { gid, timeout_ns }),
        k < n,
        submit::in_ids(b, submit::job_start(b, k)).contains(gid) || submit::out_ids(
            b,
            submit::job_start(b, k),
        ).contains(gid),
    ensures
        ({
            let after = bos.remove(gid);
            &&& request::start(after, fini) == (after, StepView::Reply(wire::failure(errno::ENOENT)))
            &&& request::start(after, prep) == (after, StepView::Reply(wire::failure(errno::ENOENT)))
            &&& submit::host_jobs(after, b, n) is Err
        }),
{
    let after = bos.remove(gid);
    submit::law_first_fault_decides(after, b, n);
    let off = submit::job_start(b, k);
    if submit::host_jobs(after, b, n) is Ok {
        assert(submit::fault(after, b, k) is None);
        if submit::in_ids(b, off).contains(gid) {
            let i = choose|i: int|
                0 <= i < submit::in_ids(b, off).len() && submit::in_ids(b, off)[i] == gid;
            assert(after.contains_key(submit::in_ids(b, off)[i]));
        } else {
            let i = choose|i: int|
                0 <= i < submit::out_ids(b, off).len() && submit::out_ids(b, off)[i] == gid;
            assert(after.contains_key(submit::out_ids(b, off)[i]));
        }
    }
}

/// Page for page, what is copied to the guest is what was copied from it: the same page of the
/// guest, the same bytes of the mapping.
pub proof fn law_prep_mirrors_fini(bos: Map<u32, BoView>, gid: u32, page: int)
    requires
        0 <= page < bos[gid].gpas.len(),
    ensures
        request::copy_in(bos, gid, page) matches StepView::Call(_, HostCallView::CopyIn(there)) && (
        request::copy_out(bos, gid, page) matches StepView::Call(_, HostCallView::CopyOut(back))
            && there == back),
{
}

} // verus!
