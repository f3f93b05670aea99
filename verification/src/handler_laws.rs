//! What every call to the host carries and what every answer leads to, in terms of the request, the
//! table and the answer.

use vstd::prelude::*;

use crate::bo::BoView;
use crate::request;
use crate::request::{Answer, HostCallView, PendingView, Step, StepView};
use crate::request_laws;
use crate::rocket::{DrmRocketCreateBo, DrmRocketFiniBo, DrmRocketSubmit};
use crate::wire;
use crate::wire::RequestView;

verus! {

/// The reply to a request that a driver call failed: the driver's number, or 5 if it has none.
pub open spec fn driver_failed(os_error: Option<i32>) -> StepView {
    StepView::Reply(
        wire::failure(
            if os_error is Some {
                os_error->0
            } else {
                5
            },
        ),
    )
}

/// The driver is asked for a buffer object of the size that the guest asked for, with everything else
/// left to it; nothing changes yet.
pub proof fn law_create_asks_the_driver(
    bos: Map<u32, BoView>,
    req: Seq<u8>,
    size: u32,
    gid: u32,
    gpas: Seq<u64>,
)
    requires
        wire::decode(req) == Some(RequestView::CreateBo { size, gid, gpas }),
    ensures
        ({
            let first = request::start(bos, req);
            &&& first.0 == bos
            &&& first.1 matches StepView::Call(pending, HostCallView::CreateBo(args))
            &&& pending == PendingView::Create { size, gid, gpas }
            &&& args.size == size && args.handle == 0 && args.dma_address == 0 && args.offset == 0
        }),
{
}

/// A buffer object that the driver made is mapped at the offset that the driver gave for it, as many
/// bytes as the driver made, for reading and writing, shared with the device. One that it did not
/// make is reported.
pub proof fn law_made_buffer_object_is_mapped(
    bos: Map<u32, BoView>,
    size: u32,
    gid: u32,
    gpas: Seq<u64>,
    ret: i32,
    made: DrmRocketCreateBo,
    os_error: Option<i32>,
)
    ensures
        ({
            let after = request::next(
                bos,
                PendingView::Create { size, gid, gpas },
                Answer::Created { ret, args: made, os_error },
            );
            &&& after.0 == bos
            &&& ret < 0 ==> after.1 == driver_failed(os_error)
            &&& ret >= 0 ==> {
                &&& after.1 matches StepView::Call(pending, HostCallView::Mmap(mmap))
                &&& pending == PendingView::Mmap { size, gid, gpas, args: made }
                &&& mmap.len == made.size
                &&& mmap.prot == 3 && mmap.flags == 1
                &&& made.offset < 0x8000_0000_0000_0000 ==> mmap.offset == made.offset
                &&& made.offset >= 0x8000_0000_0000_0000 ==> made.offset - mmap.offset
                    == 0x1_0000_0000_0000_0000
            }
        }),
{
}

/// Buffer objects that the driver put at different offsets are mapped at different offsets, whatever
/// the guest asked for and whoever else is there.
pub proof fn law_buffer_objects_are_mapped_apart(
    bos: Map<u32, BoView>,
    bos2: Map<u32, BoView>,
    pending: PendingView,
    pending2: PendingView,
    made: DrmRocketCreateBo,
    made2: DrmRocketCreateBo,
)
    requires
        pending is Create,
        pending2 is Create,
        made.offset != made2.offset,
    ensures
        ({
            let one = Answer::Created { ret: 0, args: made, os_error: None };
            let other = Answer::Created { ret: 0, args: made2, os_error: None };
            &&& request::next(bos, pending, one).1 matches StepView::Call(_, HostCallView::Mmap(a))
            &&& request::next(bos2, pending2, other).1 matches StepView::Call(
                _,
                HostCallView::Mmap(b),
            )
            &&& a.offset != b.offset
        }),
{
}

/// A buffer object that was mapped is entered under the guest's id, with the handle and the size that
/// the driver left, where it was mapped, and with the size and the pages that the guest gave. The guest
/// is told the device's address; a buffer object that had the id is unmapped first.
pub proof fn law_mapped_buffer_object_is_entered(
    bos: Map<u32, BoView>,
    size: u32,
    gid: u32,
    gpas: Seq<u64>,
    made: DrmRocketCreateBo,
    va: usize,
    other: u32,
)
    ensures
        ({
            let after = request::next(
                bos,
                PendingView::Mmap { size, gid, gpas, args: made },
                Answer::Mapped(Some(va)),
            );
            let bo = after.0[gid];
            &&& after.0.contains_key(gid)
            &&& bo.handle == made.handle && bo.va == va && bo.size == size && bo.mapped == made.size
            &&& bo.gpas == gpas
            &&& other != gid ==> after.0.contains_key(other) == bos.contains_key(other)
                && after.0[other] == bos[other]
            &&& !bos.contains_key(gid) ==> after.1 == StepView::Reply(
                wire::created(made.dma_address),
            )
            &&& bos.contains_key(gid) ==> {
                &&& after.1 matches StepView::Call(pending, HostCallView::Unmap { va: v, size: n })
                &&& v == bos[gid].va && n == bos[gid].mapped
                &&& request::next(after.0, pending, Answer::Unmapped) == (
                    after.0,
                    StepView::Reply(wire::created(made.dma_address)),
                )
            }
        }),
{
}

/// A buffer object that could not be mapped has its handle closed, and the guest is told that memory
/// is short, whatever closing returned.
pub proof fn law_unmapped_buffer_object_is_closed(
    bos: Map<u32, BoView>,
    size: u32,
    gid: u32,
    gpas: Seq<u64>,
    made: DrmRocketCreateBo,
    ret: i32,
    os_error: Option<i32>,
)
    ensures
        ({
            let after = request::next(
                bos,
                PendingView::Mmap { size, gid, gpas, args: made },
                Answer::Mapped(None),
            );
            &&& after.0 == bos
            &&& after.1 matches StepView::Call(pending, HostCallView::Close(close))
            &&& close.handle == made.handle && close.pad == 0
            &&& request::next(bos, pending, Answer::Returned { ret, os_error }) == (
                bos,
                StepView::Reply(wire::failure(12)),
            )
        }),
{
}

/// Requests about a buffer object that is not there: destroying it is no error, handing it over and
/// waiting for it are refused, with the number 2. Bytes that are no request are refused with 22. The
/// table stays as it is.
pub proof fn law_nothing_to_work_on(bos: Map<u32, BoView>, req: Seq<u8>)
    ensures
        wire::decode(req) matches Some(RequestView::DestroyBo { gid }) && !bos.contains_key(gid)
            ==> request::start(bos, req) == (bos, StepView::Reply(wire::success())),
        wire::decode(req) matches Some(RequestView::FiniBo { gid }) && !bos.contains_key(gid)
            ==> request::start(bos, req) == (bos, StepView::Reply(wire::failure(2))),
        wire::decode(req) matches Some(RequestView::PrepBo { gid, .. }) && !bos.contains_key(gid)
            ==> request::start(bos, req) == (bos, StepView::Reply(wire::failure(2))),
        wire::decode(req) is None ==> request::start(bos, req) == (
            bos,
            StepView::Reply(wire::failure(22)),
        ),
{
}

/// Handing a buffer object over: after `k` pages went across, the guest's page `k` is copied to the
/// bytes of the mapping from 4096 times `k` on: 4096 of them, or as many as were asked for and are
/// mapped.
pub proof fn law_fini_copies_each_page(bos: Map<u32, BoView>, req: Seq<u8>, gid: u32, k: nat)
    requires
        wire::decode(req) == Some(RequestView::FiniBo { gid }),
        bos.contains_key(gid),
        k < bos[gid].gpas.len(),
    ensures
        ({
            let bo = bos[gid];
            let after = request_laws::serve(bos, req, request_laws::copied(k));
            &&& after.0 == bos
            &&& after.1 matches StepView::Call(_, HostCallView::CopyIn(copy))
            &&& copy.gpa == bo.gpas[k as int] && copy.va == bo.va
            &&& copy.offset + copy.len <= bo.size && copy.offset + copy.len <= bo.mapped
            &&& 4096 * k < bo.size && 4096 * k < bo.mapped ==> copy.offset == 4096 * k && copy.len
                <= 4096 && (copy.len == 4096 || copy.offset + copy.len == bo.size || copy.offset
                + copy.len == bo.mapped)
            &&& 4096 * k >= bo.size || 4096 * k >= bo.mapped ==> copy.len == 0
        }),
{
    request_laws::law_fini(bos, req, gid, k, 0, None);
}

/// Waiting for a buffer object: once the driver has waited and `k` pages went across, the same bytes
/// of the mapping are copied to the guest's page `k`.
pub proof fn law_prep_copies_each_page(
    bos: Map<u32, BoView>,
    req: Seq<u8>,
    gid: u32,
    timeout_ns: i64,
    k: nat,
    os_error: Option<i32>,
)
    requires
        wire::decode(req) == Some(RequestView::PrepBo { gid, timeout_ns }),
        bos.contains_key(gid),
        k < bos[gid].gpas.len(),
    ensures
        ({
            let bo = bos[gid];
            let waited = seq![Answer::Returned { ret: 0, os_error }];
            let after = request_laws::serve(bos, req, waited + request_laws::copied(k));
            &&& after.0 == bos
            &&& after.1 matches StepView::Call(_, HostCallView::CopyOut(copy))
            &&& copy.gpa == bo.gpas[k as int] && copy.va == bo.va
            &&& copy.offset + copy.len <= bo.size && copy.offset + copy.len <= bo.mapped
            &&& 4096 * k < bo.size && 4096 * k < bo.mapped ==> copy.offset == 4096 * k && copy.len
                <= 4096 && (copy.len == 4096 || copy.offset + copy.len == bo.size || copy.offset
                + copy.len == bo.mapped)
            &&& 4096 * k >= bo.size || 4096 * k >= bo.mapped ==> copy.len == 0
        }),
{
    request_laws::law_prep(bos, req, gid, timeout_ns, k, 0, os_error);
}

/// Handing over and waiting, at the ends: the driver gets the buffer object's handle, when it is handed
/// over after the copies and when it is waited for ahead of them, and the guest's timeout as it is.
pub proof fn law_driver_gets_the_handle(
    bos: Map<u32, BoView>,
    fini: Seq<u8>,
    prep: Seq<u8>,
    gid: u32,
    timeout_ns: i64,
)
    requires
        wire::decode(fini) == Some(RequestView::FiniBo { gid }),
        wire::decode(prep) == Some(RequestView::PrepBo { gid, timeout_ns }),
        bos.contains_key(gid),
    ensures
        ({
            let all = request_laws::copied(bos[gid].gpas.len());
            let handed = request_laws::serve(bos, fini, all);
            let waits = request::start(bos, prep);
            &&& handed.0 == bos
            &&& handed.1 matches StepView::Call(_, HostCallView::FiniBo(f))
            &&& f.handle == bos[gid].handle && f.reserved == 0
            &&& waits.0 == bos
            &&& waits.1 matches StepView::Call(_, HostCallView::PrepBo(p))
            &&& p.handle == bos[gid].handle && p.reserved == 0 && p.timeout_ns == timeout_ns
        }),
{
    request_laws::law_fini(bos, fini, gid, bos[gid].gpas.len(), 0, None);
    request_laws::law_prep(bos, prep, gid, timeout_ns, 0, 0, None);
}

/// What the driver returns decides: handing over and submitting succeed on zero, and waiting goes on
/// with the first page or, without pages, succeeds; anything else is reported. The table stays.
pub proof fn law_driver_decides(bos: Map<u32, BoView>, gid: u32, ret: i32, os_error: Option<i32>)
    ensures
        ({
            let answer = Answer::Returned { ret, os_error };
            let fini = request::next(bos, PendingView::Fini, answer);
            let submit = request::next(bos, PendingView::Submit, answer);
            let prep = request::next(bos, PendingView::Prep { gid }, answer);
            &&& fini.0 == bos && submit.0 == bos && prep.0 == bos
            &&& ret == 0 ==> fini.1 == StepView::Reply(wire::success()) && submit.1
                == StepView::Reply(wire::success())
            &&& ret == 0 && bos[gid].gpas.len() == 0 ==> prep.1 == StepView::Reply(wire::success())
            &&& ret == 0 && bos[gid].gpas.len() > 0 ==> (prep.1 matches StepView::Call(
                PendingView::CopyOut { gid: g, page },
                HostCallView::CopyOut(_),
            ) && g == gid && page == 0)
            &&& ret != 0 ==> fini.1 == driver_failed(os_error) && submit.1 == driver_failed(os_error)
                && prep.1 == driver_failed(os_error)
        }),
{
}

/// A copy that fails ends the request with a bad address; one that goes through is followed by the
/// next page, and the last one by the driver call or the reply.
pub proof fn law_copies_go_on(bos: Map<u32, BoView>, gid: u32, page: int)
    requires
        bos.contains_key(gid),
        0 <= page < bos[gid].gpas.len(),
    ensures
        ({
            let to_host = PendingView::CopyIn { gid, page };
            let to_guest = PendingView::CopyOut { gid, page };
            let there = request::next(bos, to_host, Answer::Copied(true));
            let back = request::next(bos, to_guest, Answer::Copied(true));
            let bad = (bos, StepView::Reply(wire::failure(14)));
            &&& request::next(bos, to_host, Answer::Copied(false)) == bad
            &&& request::next(bos, to_guest, Answer::Copied(false)) == bad
            &&& there.0 == bos && back.0 == bos
            &&& page + 1 < bos[gid].gpas.len() ==> {
                &&& there.1 matches StepView::Call(PendingView::CopyIn { gid: g, page: p }, c)
                &&& g == gid && p == page + 1
                &&& c == HostCallView::CopyIn(bos[gid].page_copy(page + 1))
                &&& back.1 matches StepView::Call(PendingView::CopyOut { gid: h, page: q }, d)
                &&& h == gid && q == page + 1
                &&& d == HostCallView::CopyOut(bos[gid].page_copy(page + 1))
            }
            &&& page + 1 == bos[gid].gpas.len() ==> {
                &&& there.1 == StepView::Call(
                    PendingView::Fini,
                    HostCallView::FiniBo(DrmRocketFiniBo { handle: bos[gid].handle, reserved: 0 }),
                )
                &&& back.1 == StepView::Reply(wire::success())
            }
        }),
{
}

/// Destroying a buffer object: the handle that the driver gave is closed, then the mapping is taken
/// away where it is and as long as it is, whatever closing returned. Only that one leaves the table.
pub proof fn law_destroy_lets_go(
    bos: Map<u32, BoView>,
    req: Seq<u8>,
    gid: u32,
    ret: i32,
    os_error: Option<i32>,
    other: u32,
)
    requires
        wire::decode(req) == Some(RequestView::DestroyBo { gid }),
        bos.contains_key(gid),
    ensures
        ({
            let first = request::start(bos, req);
            &&& !first.0.contains_key(gid)
            &&& other != gid ==> first.0.contains_key(other) == bos.contains_key(other)
                && first.0[other] == bos[other]
            &&& first.1 matches StepView::Call(pending, HostCallView::Close(close))
            &&& close.handle == bos[gid].handle && close.pad == 0
            &&& request::next(first.0, pending, Answer::Returned { ret, os_error }) matches (
                bos2,
                StepView::Call(then, HostCallView::Unmap { va, size }),
            )
            &&& bos2 == first.0 && va == bos[gid].va && size == bos[gid].mapped
            &&& request::next(bos2, then, Answer::Unmapped) == (
                bos2,
                StepView::Reply(wire::success()),
            )
        }),
{
}

/// Every answer of the right kind is taken, whatever it says.
pub proof fn law_any_answer_will_do(
    size: u32,
    gid: u32,
    gpas: Seq<u64>,
    args: DrmRocketCreateBo,
    reply: Seq<u8>,
    va: usize,
    len: usize,
    page: int,
    ret: i32,
    os_error: Option<i32>,
    mapped: Option<usize>,
    ok: bool,
)
    ensures
        request::answers(
            PendingView::Create { size, gid, gpas },
            Answer::Created { ret, args, os_error },
        ),
        request::answers(PendingView::Mmap { size, gid, gpas, args }, Answer::Mapped(mapped)),
        request::answers(PendingView::Discard, Answer::Returned { ret, os_error }),
        request::answers(PendingView::Destroy { va, len }, Answer::Returned { ret, os_error }),
        request::answers(PendingView::Release { reply }, Answer::Unmapped),
        request::answers(PendingView::CopyIn { gid, page }, Answer::Copied(ok)),
        request::answers(PendingView::CopyOut { gid, page }, Answer::Copied(ok)),
        request::answers(PendingView::Fini, Answer::Returned { ret, os_error }),
        request::answers(PendingView::Prep { gid }, Answer::Returned { ret, os_error }),
        request::answers(PendingView::Submit, Answer::Returned { ret, os_error }),
{
}

/// Where a request that works on a buffer object stands, that one is in the table, and the page that
/// is being copied is one of its pages; everywhere else it can always go on.
pub proof fn law_where_requests_can_go_on(bos: Map<u32, BoView>, pending: PendingView)
    ensures
        !(pending is CopyIn || pending is CopyOut || pending is Prep) ==> request::can_resume(
            bos,
            pending,
        ),
        pending matches PendingView::Prep { gid } ==> (request::can_resume(bos, pending)
            <==> bos.contains_key(gid)),
        pending matches PendingView::CopyIn { gid, page } ==> (request::can_resume(bos, pending)
            <==> bos.contains_key(gid) && 0 <= page < bos[gid].gpas.len()),
        pending matches PendingView::CopyOut { gid, page } ==> (request::can_resume(bos, pending)
            <==> bos.contains_key(gid) && 0 <= page < bos[gid].gpas.len()),
{
}

/// What a submission hands to the driver has the counts of its lists.
pub proof fn law_submission_is_counted(step: Step, pending: request::Pending, args: DrmRocketSubmit)
    requires
        step.counted(),
        step == Step::Call(pending, request::HostCall::Submit(args)),
    ensures
        args.counted(),
{
}

/// Once a mapping is gone, the reply that waited for it goes out as it is; and a mapping that waits for
/// its handle to be closed is taken away as it is.
pub proof fn law_what_waits_goes_on(
    bos: Map<u32, BoView>,
    reply: Seq<u8>,
    va: usize,
    len: usize,
    ret: i32,
    os_error: Option<i32>,
)
    ensures
        request::next(bos, PendingView::Release { reply }, Answer::Unmapped) == (
            bos,
            StepView::Reply(reply),
        ),
        ({
            let after = request::next(
                bos,
                PendingView::Destroy { va, len },
                Answer::Returned { ret, os_error },
            );
            &&& after.0 == bos
            &&& after.1 matches StepView::Call(pending, HostCallView::Unmap { va: v, size })
            &&& v == va && size == len
            &&& pending == PendingView::Release { reply: wire::success() }
        }),
{
}

} // verus!
