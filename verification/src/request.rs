//! How one request of the guest is carried out on the host.
//!
//! Carrying a request out alternates between decisions and work on the host: calls into the driver,
//! mappings, copies. The decisions are here. [`NpuEpollHandler::handle_request`] takes a request and
//! says what to do first; [`NpuEpollHandler::resume`] takes what came of it and says what to do
//! next, until there is a reply.

use vstd::prelude::*;
use vstd::pervasive::unreached;
use vstd::slice::slice_subrange;

use crate::bo;
use crate::bo::{BoMapping, BoTable, BoView, HostBo, PageCopy};
use crate::errno;
use crate::le;
use crate::mapping;
use crate::mapping::MmapArgs;
use crate::rocket::{
    DrmGemClose, DrmRocketCreateBo, DrmRocketFiniBo, DrmRocketPrepBo, DrmRocketSubmit, JobView,
};
use crate::submit;
use crate::wire;
use crate::wire::Request;

verus! {

/// Work on the host.
#[derive(Debug)]
pub enum HostCall {
    /// Make a buffer object.
    CreateBo(DrmRocketCreateBo),
    /// Map a part of the device file.
    Mmap(MmapArgs),
    /// Close a handle.
    Close(DrmGemClose),
    /// Take a mapping away.
    Unmap { va: usize, size: usize },
    /// Copy from the guest to the mapping.
    CopyIn(PageCopy),
    /// Copy from the mapping to the guest.
    CopyOut(PageCopy),
    /// Hand a buffer object to the device.
    FiniBo(DrmRocketFiniBo),
    /// Wait for a buffer object.
    PrepBo(DrmRocketPrepBo),
    /// Queue jobs.
    Submit(DrmRocketSubmit),
}

/// What a `HostCall` says.
pub ghost enum HostCallView {
    CreateBo(DrmRocketCreateBo),
    Mmap(MmapArgs),
    Close(DrmGemClose),
    Unmap { va: usize, size: usize },
    CopyIn(PageCopy),
    CopyOut(PageCopy),
    FiniBo(DrmRocketFiniBo),
    PrepBo(DrmRocketPrepBo),
    Submit(Seq<JobView>),
}

impl View for HostCall {
    type V = HostCallView;

    open spec fn view(&self) -> HostCallView {
        match *self {
            HostCall::CreateBo(args) => HostCallView::CreateBo(args),
            HostCall::Mmap(args) => HostCallView::Mmap(args),
            HostCall::Close(args) => HostCallView::Close(args),
            HostCall::Unmap { va, size } => HostCallView::Unmap { va, size },
            HostCall::CopyIn(copy) => HostCallView::CopyIn(copy),
            HostCall::CopyOut(copy) => HostCallView::CopyOut(copy),
            HostCall::FiniBo(args) => HostCallView::FiniBo(args),
            HostCall::PrepBo(args) => HostCallView::PrepBo(args),
            HostCall::Submit(args) => HostCallView::Submit(args@),
        }
    }
}

/// What came of a call.
#[derive(Clone, Copy, Debug)]
pub enum Answer {
    /// The driver returned `ret` and left `args`; `os_error` is the number that it failed with.
    Created { ret: i32, args: DrmRocketCreateBo, os_error: Option<i32> },
    /// The mapping starts there, or there is none.
    Mapped(Option<usize>),
    /// The driver returned `ret`; `os_error` is the number that it failed with.
    Returned { ret: i32, os_error: Option<i32> },
    /// Whether the copy went through.
    Copied(bool),
    /// The mapping is gone.
    Unmapped,
}

/// Where a request stands while the host works.
#[derive(Debug)]
pub enum Pending {
    /// A buffer object is being made.
    Create { size: u32, gid: u32, gpas: Vec<u64> },
    /// A buffer object that was made is being mapped.
    Mmap { size: u32, gid: u32, gpas: Vec<u64>, args: DrmRocketCreateBo },
    /// A buffer object that could not be mapped is being closed.
    Discard,
    /// A buffer object that was taken out is being closed.
    Destroy { va: usize, len: usize },
    /// A mapping that nothing uses any more is being taken away; then comes the reply.
    Release { reply: Vec<u8> },
    /// A page is being copied to the host.
    CopyIn { gid: u32, page: usize },
    /// The driver is being handed a buffer object.
    Fini,
    /// The driver waits for a buffer object.
    Prep { gid: u32 },
    /// A page is being copied to the guest.
    CopyOut { gid: u32, page: usize },
    /// The driver is queueing jobs.
    Submit,
}

/// What a `Pending` says.
pub ghost enum PendingView {
    Create { size: u32, gid: u32, gpas: Seq<u64> },
    Mmap { size: u32, gid: u32, gpas: Seq<u64>, args: DrmRocketCreateBo },
    Discard,
    Destroy { va: usize, len: usize },
    Release { reply: Seq<u8> },
    CopyIn { gid: u32, page: int },
    Fini,
    Prep { gid: u32 },
    CopyOut { gid: u32, page: int },
    Submit,
}

impl View for Pending {
    type V = PendingView;

    open spec fn view(&self) -> PendingView {
        match *self {
            Pending::Create { size, gid, gpas } => PendingView::Create { size, gid, gpas: gpas@ },
            Pending::Mmap { size, gid, gpas, args } => PendingView::Mmap {
                size,
                gid,
                gpas: gpas@,
                args,
            },
            Pending::Discard => PendingView::Discard,
            Pending::Destroy { va, len } => PendingView::Destroy { va, len },
            Pending::Release { reply } => PendingView::Release { reply: reply@ },
            Pending::CopyIn { gid, page } => PendingView::CopyIn { gid, page: page as int },
            Pending::Fini => PendingView::Fini,
            Pending::Prep { gid } => PendingView::Prep { gid },
            Pending::CopyOut { gid, page } => PendingView::CopyOut { gid, page: page as int },
            Pending::Submit => PendingView::Submit,
        }
    }
}

/// What to do next.
#[derive(Debug)]
pub enum Step {
    /// Do this work and resume with what came of it.
    Call(Pending, HostCall),
    /// The request is answered.
    Reply(Vec<u8>),
}

/// What a `Step` says.
pub ghost enum StepView {
    Call(PendingView, HostCallView),
    Reply(Seq<u8>),
}

impl View for Step {
    type V = StepView;

    open spec fn view(&self) -> StepView {
        match *self {
            Step::Call(pending, call) => StepView::Call(pending@, call@),
            Step::Reply(reply) => StepView::Reply(reply@),
        }
    }
}

impl Step {
    /// The counts that stand beside the lists of a submission are theirs.
    pub open spec fn counted(self) -> bool {
        self matches Step::Call(_, HostCall::Submit(args)) ==> args.counted()
    }
}

/// The refusal of a request, or its failure.
pub open spec fn refuse(e: i32) -> StepView {
    StepView::Reply(wire::failure(e))
}

/// The number that a failed call is reported under.
pub open spec fn reported(os_error: Option<i32>) -> i32 {
    match os_error {
        Some(e) => e,
        None => errno::EIO,
    }
}

/// The answer is to the call that is outstanding.
pub open spec fn answers(pending: PendingView, answer: Answer) -> bool {
    match pending {
        PendingView::Create { .. } => answer is Created,
        PendingView::Mmap { .. } => answer is Mapped,
        PendingView::Discard => answer is Returned,
        PendingView::Destroy { .. } => answer is Returned,
        PendingView::Release { .. } => answer is Unmapped,
        PendingView::CopyIn { .. } => answer is Copied,
        PendingView::Fini => answer is Returned,
        PendingView::Prep { .. } => answer is Returned,
        PendingView::CopyOut { .. } => answer is Copied,
        PendingView::Submit => answer is Returned,
    }
}

/// A request that stands there can go on: the buffer object that it works on is in the table, and
/// the page that is being copied is one of its pages.
pub open spec fn can_resume(bos: Map<u32, BoView>, pending: PendingView) -> bool {
    match pending {
        PendingView::CopyIn { gid, page } => {
            &&& bos.contains_key(gid)
            &&& 0 <= page < bos[gid].gpas.len()
        },
        PendingView::Prep { gid } => bos.contains_key(gid),
        PendingView::CopyOut { gid, page } => {
            &&& bos.contains_key(gid)
            &&& 0 <= page < bos[gid].gpas.len()
        },
        _ => true,
    }
}

/// How a buffer object that the driver made is mapped: all of it, as the driver left its size, shared
/// with the device, for reading and writing.
pub open spec fn bo_args(args: DrmRocketCreateBo) -> MmapArgs {
    MmapArgs {
        len: args.size as u64,
        prot: mapping::PROT_READ_WRITE,
        flags: mapping::MAP_SHARED,
        offset: le::signed(args.offset),
    }
}

/// Copying to the host goes on with that page; behind the last one the device gets the buffer.
pub open spec fn copy_in(bos: Map<u32, BoView>, gid: u32, page: int) -> StepView {
    if page < bos[gid].gpas.len() {
        StepView::Call(
            PendingView::CopyIn { gid, page },
            HostCallView::CopyIn(bos[gid].page_copy(page)),
        )
    } else {
        StepView::Call(
            PendingView::Fini,
            HostCallView::FiniBo(DrmRocketFiniBo { handle: bos[gid].handle, reserved: 0 }),
        )
    }
}

/// Copying to the guest goes on with that page; behind the last one the request is answered.
pub open spec fn copy_out(bos: Map<u32, BoView>, gid: u32, page: int) -> StepView {
    if page < bos[gid].gpas.len() {
        StepView::Call(
            PendingView::CopyOut { gid, page },
            HostCallView::CopyOut(bos[gid].page_copy(page)),
        )
    } else {
        StepView::Reply(wire::success())
    }
}

/// The table and the step after a request came in.
pub open spec fn start(bos: Map<u32, BoView>, req: Seq<u8>) -> (Map<u32, BoView>, StepView) {
    match wire::decode(req) {
        None => (bos, refuse(errno::EINVAL)),
        Some(wire::RequestView::CreateBo { size, gid, gpas }) => (
            bos,
            StepView::Call(
                PendingView::Create { size, gid, gpas },
                HostCallView::CreateBo(
                    DrmRocketCreateBo { size, handle: 0, dma_address: 0, offset: 0 },
                ),
            ),
        ),
        Some(wire::RequestView::DestroyBo { gid }) => if bos.contains_key(gid) {
            (
                bos.remove(gid),
                StepView::Call(
                    PendingView::Destroy { va: bos[gid].va, len: bos[gid].mapped },
                    HostCallView::Close(DrmGemClose { handle: bos[gid].handle, pad: 0 }),
                ),
            )
        } else {
            (bos, StepView::Reply(wire::success()))
        },
        Some(wire::RequestView::FiniBo { gid }) => if bos.contains_key(gid) {
            (bos, copy_in(bos, gid, 0))
        } else {
            (bos, refuse(errno::ENOENT))
        },
        Some(wire::RequestView::PrepBo { gid, timeout_ns }) => if bos.contains_key(gid) {
            (
                bos,
                StepView::Call(
                    PendingView::Prep { gid },
                    HostCallView::PrepBo(
                        DrmRocketPrepBo { handle: bos[gid].handle, reserved: 0, timeout_ns },
                    ),
                ),
            )
        } else {
            (bos, refuse(errno::ENOENT))
        },
        Some(wire::RequestView::Submit { job_count }) => match submit::host_jobs(
            bos,
            wire::body(req),
            job_count as nat,
        ) {
            Ok(jobs) => (bos, StepView::Call(PendingView::Submit, HostCallView::Submit(jobs))),
            Err(e) => (bos, refuse(e)),
        },
    }
}

/// The table and the step after a buffer object was made and mapped at `va`.
pub open spec fn enter(
    bos: Map<u32, BoView>,
    size: u32,
    gid: u32,
    gpas: Seq<u64>,
    args: DrmRocketCreateBo,
    va: usize,
) -> (Map<u32, BoView>, StepView) {
    let bo = BoView {
        handle: args.handle,
        va,
        size: size as usize,
        mapped: args.size as usize,
        gpas,
    };
    let reply = wire::created(args.dma_address);
    (
        bos.insert(gid, bo),
        if bos.contains_key(gid) {
            StepView::Call(
                PendingView::Release { reply },
                HostCallView::Unmap { va: bos[gid].va, size: bos[gid].mapped },
            )
        } else {
            StepView::Reply(reply)
        },
    )
}

/// The step after a driver call that ends a request.
pub open spec fn conclude(ret: i32, os_error: Option<i32>) -> StepView {
    if ret == 0 {
        StepView::Reply(wire::success())
    } else {
        refuse(reported(os_error))
    }
}

/// The table and the step after an answer came in.
pub open spec fn next(bos: Map<u32, BoView>, pending: PendingView, answer: Answer) -> (
    Map<u32, BoView>,
    StepView,
) {
    match (pending, answer) {
        (PendingView::Create { size, gid, gpas }, Answer::Created { ret, args, os_error }) => if ret
            < 0 {
            (bos, refuse(reported(os_error)))
        } else {
            (
                bos,
                StepView::Call(
                    PendingView::Mmap { size, gid, gpas, args },
                    HostCallView::Mmap(bo_args(args)),
                ),
            )
        },
        (PendingView::Mmap { size, gid, gpas, args }, Answer::Mapped(va)) => match va {
            Some(va) => enter(bos, size, gid, gpas, args, va),
            None => (
                bos,
                StepView::Call(
                    PendingView::Discard,
                    HostCallView::Close(DrmGemClose { handle: args.handle, pad: 0 }),
                ),
            ),
        },
        (PendingView::Discard, Answer::Returned { .. }) => (bos, refuse(errno::ENOMEM)),
        (PendingView::Destroy { va, len }, Answer::Returned { .. }) => (
            bos,
            StepView::Call(
                PendingView::Release { reply: wire::success() },
                HostCallView::Unmap { va, size: len },
            ),
        ),
        (PendingView::Release { reply }, Answer::Unmapped) => (bos, StepView::Reply(reply)),
        (PendingView::CopyIn { gid, page }, Answer::Copied(ok)) => if ok {
            (bos, copy_in(bos, gid, page + 1))
        } else {
            (bos, refuse(errno::EFAULT))
        },
        (PendingView::Fini, Answer::Returned { ret, os_error }) => (bos, conclude(ret, os_error)),
        (PendingView::Prep { gid }, Answer::Returned { ret, os_error }) => if ret == 0 {
            (bos, copy_out(bos, gid, 0))
        } else {
            (bos, refuse(reported(os_error)))
        },
        (PendingView::CopyOut { gid, page }, Answer::Copied(ok)) => if ok {
            (bos, copy_out(bos, gid, page + 1))
        } else {
            (bos, refuse(errno::EFAULT))
        },
        (PendingView::Submit, Answer::Returned { ret, os_error }) => (
            bos,
            conclude(ret, os_error),
        ),
        _ => arbitrary(),
    }
}

/// A step leaves the request where it can go on.
pub open spec fn step_can_resume(bos: Map<u32, BoView>, step: StepView) -> bool {
    step matches StepView::Call(pending, _) ==> can_resume(bos, pending)
}

/// The device's side of a guest's connection: the guest's buffer objects.
#[derive(Debug)]
pub struct NpuEpollHandler {
    bos: BoTable,
}

impl View for NpuEpollHandler {
    type V = Map<u32, BoView>;

    closed spec fn view(&self) -> Map<u32, BoView> {
        self.bos@
    }
}

impl NpuEpollHandler {
    /// A handler for a guest that has no buffer objects yet.
    pub fn new() -> (handler: NpuEpollHandler)
        ensures
            handler@ == Map::<u32, BoView>::empty(),
    {
        NpuEpollHandler { bos: BoTable::new() }
    }

    /// The mappings of all buffer objects that the guest has left, in no particular order.
    pub fn mappings(&self) -> (r: Vec<BoMapping>)
        ensures
            bo::lists_mappings(r@, self@),
    {
        self.bos.mappings()
    }

    /// Asks the driver for a buffer object.
    fn host_bo_map(size: u32, gid: u32, gpas: Vec<u64>) -> (step: Step)
        ensures
            step@ == StepView::Call(
                PendingView::Create { size, gid, gpas: gpas@ },
                HostCallView::CreateBo(
                    DrmRocketCreateBo { size, handle: 0, dma_address: 0, offset: 0 },
                ),
            ),
    {
        let args = DrmRocketCreateBo { size, handle: 0, dma_address: 0, offset: 0 };
        Step::Call(Pending::Create { size, gid, gpas }, HostCall::CreateBo(args))
    }

    /// Goes on copying a buffer object to the host, and then hands it to the device.
    fn guest_to_host(&self, gid: u32, bo: &HostBo, page: usize) -> (step: Step)
        requires
            self@.contains_key(gid),
            bo@ == self@[gid],
            page <= bo@.gpas.len(),
        ensures
            step@ == copy_in(self@, gid, page as int),
            step.counted(),
    {
        if page < bo.gpas.len() {
            Step::Call(Pending::CopyIn { gid, page }, HostCall::CopyIn(bo.page_copy(page)))
        } else {
            let args = DrmRocketFiniBo { handle: bo.handle, reserved: 0 };
            Step::Call(Pending::Fini, HostCall::FiniBo(args))
        }
    }

    /// Goes on copying a buffer object to the guest, and then answers the request.
    fn host_to_guest(&self, gid: u32, bo: &HostBo, page: usize) -> (step: Step)
        requires
            self@.contains_key(gid),
            bo@ == self@[gid],
            page <= bo@.gpas.len(),
        ensures
            step@ == copy_out(self@, gid, page as int),
            step.counted(),
    {
        if page < bo.gpas.len() {
            Step::Call(Pending::CopyOut { gid, page }, HostCall::CopyOut(bo.page_copy(page)))
        } else {
            Step::Reply(wire::success_reply())
        }
    }

    /// Takes a request and says what to do first.
    pub fn handle_request(&mut self, req: &[u8]) -> (step: Step)
        ensures
            (final(self)@, step@) == start(old(self)@, req@),
            step_can_resume(final(self)@, step@),
            step.counted(),
    {
        let request = match wire::decode_request(req) {
            Some(request) => request,
            None => {
                return Step::Reply(wire::fail(errno::EINVAL));
            },
        };
        match request {
            Request::CreateBo { size, gid, gpas } => Self::host_bo_map(size, gid, gpas),
            Request::DestroyBo { gid } => match self.bos.remove(gid) {
                Some(bo) => {
                    let close = DrmGemClose { handle: bo.handle, pad: 0 };
                    Step::Call(Pending::Destroy { va: bo.va, len: bo.mapped }, HostCall::Close(close))
                },
                None => {
                    assert(self@ =~= old(self)@);
                    Step::Reply(wire::success_reply())
                },
            },
            Request::FiniBo { gid } => match self.bos.get(gid) {
                Some(bo) => self.guest_to_host(gid, bo, 0),
                None => Step::Reply(wire::fail(errno::ENOENT)),
            },
            Request::PrepBo { gid, timeout_ns } => match self.bos.get(gid) {
                Some(bo) => {
                    let args = DrmRocketPrepBo { handle: bo.handle, reserved: 0, timeout_ns };
                    Step::Call(Pending::Prep { gid }, HostCall::PrepBo(args))
                },
                None => Step::Reply(wire::fail(errno::ENOENT)),
            },
            Request::Submit { job_count } => {
                let b = slice_subrange(req, wire::HEADER_LEN, req.len());
                match submit::read_submission(&self.bos, b, job_count) {
                    Ok(args) => Step::Call(Pending::Submit, HostCall::Submit(args)),
                    Err(e) => Step::Reply(wire::fail(e)),
                }
            },
        }
    }

    /// Enters a buffer object that was made and mapped.
    fn enter(
        &mut self,
        size: u32,
        gid: u32,
        gpas: Vec<u64>,
        args: DrmRocketCreateBo,
        va: usize,
    ) -> (step: Step)
        ensures
            (final(self)@, step@) == enter(old(self)@, size, gid, gpas@, args, va),
            step.counted(),
    {
        let reply = wire::created_reply(args.dma_address);
        let bo = HostBo {
            handle: args.handle,
            va,
            size: size as usize,
            mapped: args.size as usize,
            gpas,
        };
        match self.bos.insert(gid, bo) {
            Some(former) => Step::Call(
                Pending::Release { reply },
                HostCall::Unmap { va: former.va, size: former.mapped },
            ),
            None => Step::Reply(reply),
        }
    }

    /// Ends a request with what the driver returned.
    fn conclude(ret: i32, os_error: Option<i32>) -> (step: Step)
        ensures
            step@ == conclude(ret, os_error),
            step.counted(),
    {
        if ret == 0 {
            Step::Reply(wire::success_reply())
        } else {
            Self::failed(os_error)
        }
    }

    /// Ends a request with the number that the host failed with.
    fn failed(os_error: Option<i32>) -> (step: Step)
        ensures
            step@ == refuse(reported(os_error)),
            step.counted(),
    {
        let e: i32 = match os_error {
            Some(e) => e,
            None => errno::EIO,
        };
        Step::Reply(wire::fail(e))
    }

    /// Takes what came of a call and says what to do next.
    pub fn resume(&mut self, pending: Pending, answer: Answer) -> (step: Step)
        requires
            can_resume(old(self)@, pending@),
            answers(pending@, answer),
        ensures
            (final(self)@, step@) == next(old(self)@, pending@, answer),
            step_can_resume(final(self)@, step@),
            step.counted(),
            pending is Create ==> (answer matches Answer::Created { ret, args, .. } ==> ret >= 0 ==> {
                &&& step matches Step::Call(_, HostCall::Mmap(mmap))
                &&& mmap.len == args.size && mmap.prot == 3 && mmap.flags == 1
                &&& args.offset < 0x8000_0000_0000_0000 ==> mmap.offset == args.offset
            }),
    {
        match pending {
            Pending::Create { size, gid, gpas } => match answer {
                Answer::Created { ret, args, os_error } => if ret < 0 {
                    Self::failed(os_error)
                } else {
                    let mmap = MmapArgs {
                        len: args.size as u64,
                        prot: mapping::PROT_READ_WRITE,
                        flags: mapping::MAP_SHARED,
                        offset: le::as_signed(args.offset),
                    };
                    Step::Call(Pending::Mmap { size, gid, gpas, args }, HostCall::Mmap(mmap))
                },
                _ => unreached(),
            },
            Pending::Mmap { size, gid, gpas, args } => match answer {
                Answer::Mapped(Some(va)) => self.enter(size, gid, gpas, args, va),
                Answer::Mapped(None) => {
                    let close = DrmGemClose { handle: args.handle, pad: 0 };
                    Step::Call(Pending::Discard, HostCall::Close(close))
                },
                _ => unreached(),
            },
            Pending::Discard => Step::Reply(wire::fail(errno::ENOMEM)),
            Pending::Destroy { va, len } => Step::Call(
                Pending::Release { reply: wire::success_reply() },
                HostCall::Unmap { va, size: len },
            ),
            Pending::Release { reply } => Step::Reply(reply),
            Pending::CopyIn { gid, page } => match (self.bos.get(gid), answer) {
                (Some(bo), Answer::Copied(true)) => {
                    assert(page < bo.gpas.len());
                    self.guest_to_host(gid, bo, page + 1)
                },
                _ => Step::Reply(wire::fail(errno::EFAULT)),
            },
            Pending::Fini => match answer {
                Answer::Returned { ret, os_error } => Self::conclude(ret, os_error),
                _ => unreached(),
            },
            Pending::Prep { gid } => match (self.bos.get(gid), answer) {
                (Some(bo), Answer::Returned { ret, os_error }) => if ret == 0 {
                    self.host_to_guest(gid, bo, 0)
                } else {
                    Self::failed(os_error)
                },
                _ => unreached(),
            },
            Pending::CopyOut { gid, page } => match (self.bos.get(gid), answer) {
                (Some(bo), Answer::Copied(true)) => {
                    assert(page < bo.gpas.len());
                    self.host_to_guest(gid, bo, page + 1)
                },
                _ => Step::Reply(wire::fail(errno::EFAULT)),
            },
            Pending::Submit => match answer {
                Answer::Returned { ret, os_error } => Self::conclude(ret, os_error),
                _ => unreached(),
            },
        }
    }
}

} // verus!
