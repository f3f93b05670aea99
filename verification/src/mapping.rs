//! Mapping a device's regions into the host and into the guest.

use vstd::prelude::*;
use vstd::pervasive::unreached;

use crate::device_info::VfioPlatformRegionInfo;
use crate::le;
use crate::platform_error::{HypervisorVmError, IoError, PlatformDeviceError};
use crate::region::PlannedRegion;
use crate::step::Step;
use crate::vfio::{
    VFIO_REGION_INFO_FLAG_MMAP, VFIO_REGION_INFO_FLAG_READ, VFIO_REGION_INFO_FLAG_WRITE,
};

verus! {

/// The mapping cannot be accessed.
pub const PROT_NONE: i32 = 0;

/// The mapping can be read.
pub const PROT_READ: i32 = 1;

/// The mapping can be written.
pub const PROT_WRITE: i32 = 2;

/// The mapping can be read and written.
pub const PROT_READ_WRITE: i32 = 3;

/// The mapping is the file's, not a copy.
pub const MAP_SHARED: i32 = 1;

/// The host's physical memory as a file.
pub const DEVMEM_PATH: &'static str = "/dev/mem";

/// How to map a part of a file: `len` bytes at `offset`.
#[derive(Clone, Copy, Debug, PartialEq, Eq, Structural)]
pub struct MmapArgs {
    pub len: u64,
    pub prot: i32,
    pub flags: i32,
    pub offset: i64,
}

/// What a region's flags allow.
pub open spec fn prot_of(flags: u32) -> i32 {
    let read = flags & VFIO_REGION_INFO_FLAG_READ != 0;
    let write = flags & VFIO_REGION_INFO_FLAG_WRITE != 0;
    if read && write {
        PROT_READ_WRITE
    } else if read {
        PROT_READ
    } else if write {
        PROT_WRITE
    } else {
        PROT_NONE
    }
}

/// How a region is mapped.
pub open spec fn region_args(region: VfioPlatformRegionInfo, len: u64) -> MmapArgs {
    MmapArgs {
        len,
        prot: prot_of(region.flags),
        flags: MAP_SHARED,
        offset: le::signed(region.offset),
    }
}

/// How the host's physical memory is mapped.
pub open spec fn devmem_args(gpa: u64, len: u64) -> MmapArgs {
    MmapArgs { len, prot: PROT_READ_WRITE, flags: MAP_SHARED, offset: le::signed(gpa) }
}

// ---- one region ----

/// Work for mapping a region.
#[derive(Clone, Copy, Debug, PartialEq, Eq, Structural)]
pub enum MmapCall {
    /// Map a part of the device.
    Mmap(MmapArgs),
    /// Take the mapping over.
    Build(MmapArgs),
}

/// What came of a call.
#[derive(Debug)]
pub enum MmapAnswer {
    /// Whether there is a mapping; `last_error` is why not.
    Mapped { ok: bool, last_error: IoError },
    /// Whether the mapping could be taken over, or why not.
    Built(Result<(), String>),
}

/// The call that is outstanding.
#[derive(Clone, Copy, Debug, PartialEq, Eq, Structural)]
pub enum MmapState {
    Mmap(MmapArgs),
    Build,
}

/// What to do next, or whether the region is mapped.
pub type MmapStep = Step<MmapState, MmapCall, Result<(), PlatformDeviceError>>;

/// The answer is to the call that is outstanding.
pub open spec fn mmap_answers(state: MmapState, answer: MmapAnswer) -> bool {
    match state {
        MmapState::Mmap(_) => answer is Mapped,
        MmapState::Build => answer is Built,
    }
}

/// What to do after an answer came in.
pub open spec fn mmap_next(state: MmapState, answer: MmapAnswer) -> MmapStep {
    match (state, answer) {
        (MmapState::Mmap(args), MmapAnswer::Mapped { ok, last_error }) => if ok {
            Step::Call(MmapState::Build, MmapCall::Build(args))
        } else {
            Step::Done(Err(PlatformDeviceError::MmapRegion(last_error)))
        },
        (MmapState::Build, MmapAnswer::Built(Ok(_))) => Step::Done(Ok(())),
        (MmapState::Build, MmapAnswer::Built(Err(text))) => Step::Done(
            Err(PlatformDeviceError::MmapRegion(IoError::Other(text))),
        ),
        _ => arbitrary(),
    }
}

/// Starts to map `len` bytes of a region.
pub fn mmap_region(region: &VfioPlatformRegionInfo, len: u64) -> (step: MmapStep)
    ensures
        step == MmapStep::Call(
            MmapState::Mmap(region_args(*region, len)),
            MmapCall::Mmap(region_args(*region, len)),
        ),
        step matches Step::Call(_, MmapCall::Mmap(args)) && args.len == len && args.flags == 1 && (
        region.offset < 0x8000_0000_0000_0000 ==> args.offset == region.offset),
{
    let read: bool = region.flags & VFIO_REGION_INFO_FLAG_READ != 0;
    let write: bool = region.flags & VFIO_REGION_INFO_FLAG_WRITE != 0;
    let mut prot: i32 = PROT_NONE;
    if read {
        prot = prot + PROT_READ;
    }
    if write {
        prot = prot + PROT_WRITE;
    }
    let args = MmapArgs { len, prot, flags: MAP_SHARED, offset: le::as_signed(region.offset) };
    Step::Call(MmapState::Mmap(args), MmapCall::Mmap(args))
}

/// Goes on mapping a region.
pub fn resume_mmap_region(state: MmapState, answer: MmapAnswer) -> (step: MmapStep)
    requires
        mmap_answers(state, answer),
    ensures
        step == mmap_next(state, answer),
{
    match (state, answer) {
        (MmapState::Mmap(args), MmapAnswer::Mapped { ok, last_error }) => if ok {
            Step::Call(MmapState::Build, MmapCall::Build(args))
        } else {
            Step::Done(Err(PlatformDeviceError::MmapRegion(last_error)))
        },
        (MmapState::Build, MmapAnswer::Built(Ok(_))) => Step::Done(Ok(())),
        (MmapState::Build, MmapAnswer::Built(Err(text))) => Step::Done(
            Err(PlatformDeviceError::MmapRegion(IoError::Other(text))),
        ),
        _ => unreached(),
    }
}

// ---- all regions of a device ----

/// A region that the guest sees: region `index` of the device, `size` bytes at `gpa`, in the
/// hypervisor's memory slot `slot`.
#[derive(Clone, Copy, Debug, PartialEq, Eq, Structural)]
pub struct PlatformRegionMapping {
    pub index: u32,
    pub slot: u32,
    pub gpa: u64,
    pub size: u64,
}

/// Work for mapping the regions of a device.
#[derive(Clone, Copy, Debug, PartialEq, Eq)]
pub enum MapCall {
    /// Map the first `len` bytes of a region of the device.
    MmapRegion { region: VfioPlatformRegionInfo, len: u64 },
    /// Open the host's physical memory, at that path, for reading and writing.
    OpenDevMem { path: &'static str },
    /// Map a part of the host's physical memory.
    MmapDevMem(MmapArgs),
    /// Allot a memory slot.
    NextSlot,
    /// Give the guest the mapping, for reading only or not, with a log of what is written or not.
    CreateUserMemoryRegion { slot: u32, gpa: u64, len: u64, readonly: bool, log_dirty_pages: bool },
}

/// What came of mapping physical memory.
#[derive(Debug)]
pub enum DevMemMapping {
    /// There is no mapping.
    Failed,
    /// There is one, but it could not be taken over, and why.
    Unusable(String),
    /// There is one.
    Mapped,
}

/// What came of a call.
#[derive(Debug)]
pub enum MapAnswer {
    /// Whether the region is mapped.
    Region(Result<(), PlatformDeviceError>),
    /// Whether physical memory is open.
    Opened(Result<(), IoError>),
    /// Whether physical memory is mapped.
    DevMem(DevMemMapping),
    /// The memory slot.
    Slot(u32),
    /// Whether the guest has the mapping.
    Created(Result<(), HypervisorVmError>),
}

/// The call that is outstanding for the region that is being mapped.
#[derive(Clone, Copy, Debug, PartialEq, Eq, Structural)]
pub enum MapStage {
    MmapRegion,
    OpenDevMem,
    MmapDevMem,
    NextSlot,
    Create { slot: u32 },
}

/// Where mapping stands: region `at` of the plan is being mapped, and what the guest has so far.
#[derive(Debug)]
pub struct MapState {
    pub plan: Vec<PlannedRegion>,
    pub at: usize,
    pub stage: MapStage,
    pub mapped: Vec<PlatformRegionMapping>,
}

/// What a `MapState` says.
#[verifier::ext_equal]
pub ghost struct MapStateView {
    pub plan: Seq<PlannedRegion>,
    pub at: int,
    pub stage: MapStage,
    pub mapped: Seq<PlatformRegionMapping>,
}

impl View for MapState {
    type V = MapStateView;

    open spec fn view(&self) -> MapStateView {
        MapStateView {
            plan: self.plan@,
            at: self.at as int,
            stage: self.stage,
            mapped: self.mapped@,
        }
    }
}

/// What to do next, or what the guest has.
pub type MapStep = Step<MapState, MapCall, Result<Vec<PlatformRegionMapping>, PlatformDeviceError>>;

/// What a `MapStep` says.
pub type MapStepView = Step<
    MapStateView,
    MapCall,
    Result<Seq<PlatformRegionMapping>, PlatformDeviceError>,
>;

/// What a `MapStep` says.
pub open spec fn map_step_view(step: MapStep) -> MapStepView {
    match step {
        Step::Call(state, call) => Step::Call(state@, call),
        Step::Done(Ok(mapped)) => Step::Done(Ok(mapped@)),
        Step::Done(Err(e)) => Step::Done(Err(e)),
    }
}

/// If there is a region at `at` of the plan, it has a length.
pub open spec fn has_len(plan: Seq<PlannedRegion>, at: int) -> bool {
    at < plan.len() ==> plan[at].len is Some
}

/// The region that is being mapped is one of the plan and has a length.
pub open spec fn map_can_resume(state: MapStateView) -> bool {
    0 <= state.at < state.plan.len() && has_len(state.plan, state.at)
}

/// A step leaves the procedure where it can go on.
pub open spec fn map_step_can_resume(step: MapStepView) -> bool {
    step matches Step::Call(state, _) ==> map_can_resume(state)
}

/// If the answer makes the next region's turn, that one has a length.
pub open spec fn next_region_fits(state: MapStateView, answer: MapAnswer) -> bool {
    match (state.stage, answer) {
        (MapStage::MmapDevMem, MapAnswer::DevMem(DevMemMapping::Failed)) => has_len(
            state.plan,
            state.at + 1,
        ),
        (MapStage::Create { .. }, MapAnswer::Created(Ok(_))) => has_len(state.plan, state.at + 1),
        _ => true,
    }
}

/// The answer is to the call that is outstanding, and there is a length for the next region.
pub open spec fn map_answers(state: MapStateView, answer: MapAnswer) -> bool {
    &&& map_can_resume(state)
    &&& next_region_fits(state, answer)
    &&& match state.stage {
        MapStage::MmapRegion => answer is Region,
        MapStage::OpenDevMem => answer is Opened,
        MapStage::MmapDevMem => answer is DevMem,
        MapStage::NextSlot => answer is Slot,
        MapStage::Create { .. } => answer is Created,
    }
}

/// Begins with region `at` of the plan, or ends behind the last one. A region that VFIO lets nobody
/// map is taken from physical memory, at the address that it has in the guest.
pub open spec fn map_from(
    plan: Seq<PlannedRegion>,
    at: int,
    mapped: Seq<PlatformRegionMapping>,
) -> MapStepView {
    if at >= plan.len() {
        Step::Done(Ok(mapped))
    } else if plan[at].region.flags & VFIO_REGION_INFO_FLAG_MMAP != 0 {
        Step::Call(
            MapStateView { plan, at, stage: MapStage::MmapRegion, mapped },
            MapCall::MmapRegion { region: plan[at].region, len: plan[at].len->0 },
        )
    } else {
        Step::Call(
            MapStateView { plan, at, stage: MapStage::OpenDevMem, mapped },
            MapCall::OpenDevMem { path: DEVMEM_PATH },
        )
    }
}

/// What to do after an answer came in.
pub open spec fn map_next(state: MapStateView, answer: MapAnswer) -> MapStepView {
    let planned = state.plan[state.at];
    let len = planned.len->0;
    let slot_next: MapStepView = Step::Call(
        MapStateView { stage: MapStage::NextSlot, ..state },
        MapCall::NextSlot,
    );
    match (state.stage, answer) {
        (MapStage::MmapRegion, MapAnswer::Region(Ok(_))) => slot_next,
        (MapStage::MmapRegion, MapAnswer::Region(Err(e))) => Step::Done(Err(e)),
        (MapStage::OpenDevMem, MapAnswer::Opened(Ok(_))) => Step::Call(
            MapStateView { stage: MapStage::MmapDevMem, ..state },
            MapCall::MmapDevMem(devmem_args(planned.gpa, len)),
        ),
        (MapStage::OpenDevMem, MapAnswer::Opened(Err(e))) => Step::Done(
            Err(PlatformDeviceError::MmapRegion(e)),
        ),
        (MapStage::MmapDevMem, MapAnswer::DevMem(DevMemMapping::Mapped)) => slot_next,
        (MapStage::MmapDevMem, MapAnswer::DevMem(DevMemMapping::Failed)) => map_from(
            state.plan,
            state.at + 1,
            state.mapped,
        ),
        (MapStage::MmapDevMem, MapAnswer::DevMem(DevMemMapping::Unusable(text))) => Step::Done(
            Err(PlatformDeviceError::MmapRegion(IoError::Other(text))),
        ),
        (MapStage::NextSlot, MapAnswer::Slot(slot)) => Step::Call(
            MapStateView { stage: MapStage::Create { slot }, ..state },
            MapCall::CreateUserMemoryRegion {
                slot,
                gpa: planned.gpa,
                len,
                readonly: false,
                log_dirty_pages: false,
            },
        ),
        (MapStage::Create { slot }, MapAnswer::Created(Ok(_))) => map_from(
            state.plan,
            state.at + 1,
            state.mapped.push(
                PlatformRegionMapping {
                    index: planned.region.index,
                    slot,
                    gpa: planned.gpa,
                    size: len,
                },
            ),
        ),
        (MapStage::Create { .. }, MapAnswer::Created(Err(e))) => Step::Done(
            Err(PlatformDeviceError::CreateUserMemoryRegion(e)),
        ),
        _ => arbitrary(),
    }
}

/// Begins with region `at` of the plan, or ends.
fn begin(plan: Vec<PlannedRegion>, at: usize, mapped: Vec<PlatformRegionMapping>) -> (step: MapStep)
    requires
        has_len(plan@, at as int),
    ensures
        map_step_view(step) == map_from(plan@, at as int, mapped@),
        map_step_can_resume(map_step_view(step)),
{
    if at >= plan.len() {
        return Step::Done(Ok(mapped));
    }
    let planned: PlannedRegion = plan[at];
    let len: u64 = planned.len.unwrap();
    if planned.region.flags & VFIO_REGION_INFO_FLAG_MMAP != 0 {
        Step::Call(
            MapState { plan, at, stage: MapStage::MmapRegion, mapped },
            MapCall::MmapRegion { region: planned.region, len },
        )
    } else {
        Step::Call(
            MapState { plan, at, stage: MapStage::OpenDevMem, mapped },
            MapCall::OpenDevMem { path: DEVMEM_PATH },
        )
    }
}

/// Whether the first region of a plan, if there is one, has a length.
pub fn first_region_fits(plan: &[PlannedRegion]) -> (r: bool)
    ensures
        r == has_len(plan@, 0),
{
    plan.len() == 0 || plan[0].len.is_some()
}

impl MapState {
    /// Whether the region whose turn the answer makes, if it does, has a length.
    pub fn next_region_fits(&self, answer: &MapAnswer) -> (r: bool)
        requires
            map_can_resume(self@),
        ensures
            r == next_region_fits(self@, *answer),
    {
        match (self.stage, answer) {
            (MapStage::MmapDevMem, MapAnswer::DevMem(DevMemMapping::Failed)) => {},
            (MapStage::Create { .. }, MapAnswer::Created(Ok(_))) => {},
            _ => {
                return true;
            },
        }
        assert(self.at < self.plan.len());
        self.at + 1 == self.plan.len() || self.plan[self.at + 1].len.is_some()
    }
}

/// Starts to map the regions of a plan.
pub fn map_regions(plan: Vec<PlannedRegion>) -> (step: MapStep)
    requires
        has_len(plan@, 0),
    ensures
        map_step_view(step) == map_from(plan@, 0, Seq::empty()),
        map_step_can_resume(map_step_view(step)),
{
    begin(plan, 0, Vec::new())
}

/// Goes on mapping regions.
pub fn resume_map_regions(state: MapState, answer: MapAnswer) -> (step: MapStep)
    requires
        map_answers(state@, answer),
    ensures
        map_step_view(step) == map_next(state@, answer),
        map_step_can_resume(map_step_view(step)),
{
    let MapState { plan, at, stage, mapped } = state;
    assert(at < plan.len());
    let planned: PlannedRegion = plan[at];
    let len: u64 = planned.len.unwrap();
    match (stage, answer) {
        (MapStage::MmapRegion, MapAnswer::Region(Ok(_))) => Step::Call(
            MapState { plan, at, stage: MapStage::NextSlot, mapped },
            MapCall::NextSlot,
        ),
        (MapStage::MmapRegion, MapAnswer::Region(Err(e))) => Step::Done(Err(e)),
        (MapStage::OpenDevMem, MapAnswer::Opened(Ok(_))) => {
            let args = MmapArgs {
                len,
                prot: PROT_READ_WRITE,
                flags: MAP_SHARED,
                offset: le::as_signed(planned.gpa),
            };
            Step::Call(
                MapState { plan, at, stage: MapStage::MmapDevMem, mapped },
                MapCall::MmapDevMem(args),
            )
        },
        (MapStage::OpenDevMem, MapAnswer::Opened(Err(e))) => Step::Done(
            Err(PlatformDeviceError::MmapRegion(e)),
        ),
        (MapStage::MmapDevMem, MapAnswer::DevMem(DevMemMapping::Mapped)) => Step::Call(
            MapState { plan, at, stage: MapStage::NextSlot, mapped },
            MapCall::NextSlot,
        ),
        (MapStage::MmapDevMem, MapAnswer::DevMem(DevMemMapping::Failed)) => begin(
            plan,
            at + 1,
            mapped,
        ),
        (MapStage::MmapDevMem, MapAnswer::DevMem(DevMemMapping::Unusable(text))) => Step::Done(
            Err(PlatformDeviceError::MmapRegion(IoError::Other(text))),
        ),
        (MapStage::NextSlot, MapAnswer::Slot(slot)) => Step::Call(
            MapState { plan, at, stage: MapStage::Create { slot }, mapped },
            MapCall::CreateUserMemoryRegion {
                slot,
                gpa: planned.gpa,
                len,
                readonly: false,
                log_dirty_pages: false,
            },
        ),
        (MapStage::Create { slot }, MapAnswer::Created(Ok(_))) => {
            let mut mapped = mapped;
            mapped.push(
                PlatformRegionMapping {
                    index: planned.region.index,
                    slot,
                    gpa: planned.gpa,
                    size: len,
                },
            );
            begin(plan, at + 1, mapped)
        },
        (MapStage::Create { .. }, MapAnswer::Created(Err(e))) => Step::Done(
            Err(PlatformDeviceError::CreateUserMemoryRegion(e)),
        ),
        _ => unreached(),
    }
}

} // verus!
