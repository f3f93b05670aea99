//! What every call for a platform device carries and what every answer leads to, in terms of the
//! configuration, what the device says and the answer.

use vstd::prelude::*;

use crate::device_info;
use crate::device_info::{
    DeviceInfo, InfoAnswer, InfoCall, InfoStateView, InfoStepView, VfioPlatformIrqInfo,
    VfioPlatformRegionInfo,
};
use crate::group;
use crate::group::{GroupAnswer, GroupCall, GroupStage, GroupState, GroupStep};
use crate::irq;
use crate::irq::{IrqAnswer, IrqCall, IrqState, IrqStepView};
use crate::mapping;
use crate::mapping::{
    DevMemMapping, MapAnswer, MapCall, MapStage, MapStateView, MapStepView, MmapAnswer, MmapArgs,
    MmapCall, MmapState, MmapStep, PlatformRegionMapping,
};
use crate::path::HostPath;
use crate::platform_device;
use crate::platform_device::{
    PlatformDeviceConfig, PlatformIrq, SetupAnswer, SetupCallView, SetupStageView, SetupStepView,
};
use crate::platform_error::{
    HypervisorVmError, IoError, IoErrorView, PlatformDeviceError, PlatformDeviceErrorView,
};
use crate::platform_laws;
use crate::probe;
use crate::probe::{ProbeAnswer, ProbeCall, ProbeDevice, ProbeState, ProbeStepView};
use crate::region;
use crate::region::PlannedRegion;
use crate::step;
use crate::step::Step;
use crate::text;
use crate::vfio::VfioGroupStatus;

verus! {

// ---- groups ----

/// Opening a group goes on, as long as all goes well, from the container to the group, its status,
/// putting it into the container, and the model without an IOMMU, which has the number 8. A group
/// whose status does not have its lowest bit cannot be used.
pub proof fn law_group_goes_on(path: HostPath, ret: i32, flags: u32, e: IoError)
    requires
        ret >= 0,
    ensures
        ({
            let at = |stage: GroupStage| GroupState { path, stage };
            let opened = GroupAnswer::Opened(Ok(()));
            let done = GroupAnswer::Returned { ret, last_error: e };
            &&& group::group_next(at(GroupStage::OpenContainer), opened) == GroupStep::Call(
                at(GroupStage::OpenGroup),
                GroupCall::OpenGroup,
            )
            &&& group::group_next(at(GroupStage::OpenGroup), opened) == GroupStep::Call(
                at(GroupStage::GetStatus),
                GroupCall::GetStatus(VfioGroupStatus { argsz: 8, flags: 0 }),
            )
            &&& group::group_next(
                at(GroupStage::GetStatus),
                GroupAnswer::Status { ret, flags, last_error: e },
            ) == if flags & 1 == 0 {
                GroupStep::Done(Err(PlatformDeviceError::GroupNotViable))
            } else {
                GroupStep::Call(at(GroupStage::SetContainer), GroupCall::SetContainer)
            }
            &&& group::group_next(at(GroupStage::SetContainer), done) == GroupStep::Call(
                at(GroupStage::SetIommu),
                GroupCall::SetIommu { model: 8 },
            )
            &&& group::group_next(at(GroupStage::SetIommu), done) == GroupStep::Done(Ok(()))
        }),
{
}

/// What goes wrong with a group ends opening it with the error of that step, and with the group's path
/// where the group itself could not be opened.
pub proof fn law_group_fails(path: HostPath, ret: i32, flags: u32, e: IoError)
    requires
        ret < 0,
    ensures
        ({
            let at = |stage: GroupStage| GroupState { path, stage };
            let failed = GroupAnswer::Returned { ret, last_error: e };
            &&& group::group_next(at(GroupStage::OpenContainer), GroupAnswer::Opened(Err(e)))
                == GroupStep::Done(Err(PlatformDeviceError::OpenContainer(e)))
            &&& group::group_next(at(GroupStage::OpenGroup), GroupAnswer::Opened(Err(e)))
                == GroupStep::Done(Err(PlatformDeviceError::OpenGroup(path, e)))
            &&& group::group_next(
                at(GroupStage::GetStatus),
                GroupAnswer::Status { ret, flags, last_error: e },
            ) == GroupStep::Done(Err(PlatformDeviceError::GroupStatus(e)))
            &&& group::group_next(at(GroupStage::SetContainer), failed) == GroupStep::Done(
                Err(PlatformDeviceError::SetContainer(e)),
            )
            &&& group::group_next(at(GroupStage::SetIommu), failed) == GroupStep::Done(
                Err(PlatformDeviceError::SetNoiommu(e)),
            )
        }),
{
}

/// Every answer of the right kind about a group is taken.
pub proof fn law_group_takes_any_answer(
    path: HostPath,
    opened: Result<(), IoError>,
    ret: i32,
    flags: u32,
    last_error: IoError,
)
    ensures
        ({
            let at = |stage: GroupStage| GroupState { path, stage };
            &&& group::group_answers(at(GroupStage::OpenContainer), GroupAnswer::Opened(opened))
            &&& group::group_answers(at(GroupStage::OpenGroup), GroupAnswer::Opened(opened))
            &&& group::group_answers(
                at(GroupStage::GetStatus),
                GroupAnswer::Status { ret, flags, last_error },
            )
            &&& group::group_answers(
                at(GroupStage::SetContainer),
                GroupAnswer::Returned { ret, last_error },
            )
            &&& group::group_answers(
                at(GroupStage::SetIommu),
                GroupAnswer::Returned { ret, last_error },
            )
        }),
{
}

// ---- what a device has ----

/// After so many regions were told, the next question is about the region of that number, until all
/// were told; then come the interrupts in the same way; and then what was told is handed out.
pub open spec fn asks_on(
    step: InfoStepView,
    n: u32,
    q: u32,
    regions: Seq<VfioPlatformRegionInfo>,
    irqs: Seq<VfioPlatformIrqInfo>,
) -> bool {
    if regions.len() < n {
        &&& step matches Step::Call(
            InfoStateView::Region { num_regions, num_irqs, regions: told },
            InfoCall::Region(args),
        )
        &&& num_regions == n && num_irqs == q && told == regions
        &&& args.index == regions.len() && args.argsz == 32
        &&& args.flags == 0 && args.cap_offset == 0 && args.size == 0 && args.offset == 0
    } else if irqs.len() < q {
        &&& step matches Step::Call(
            InfoStateView::Irq { num_irqs, regions: told, irqs: told_irqs },
            InfoCall::Irq(args),
        )
        &&& num_irqs == q && told == regions && told_irqs == irqs
        &&& args.index == irqs.len() && args.argsz == 16 && args.flags == 0 && args.count == 0
    } else {
        step matches Step::Done(Ok((told, told_irqs))) && told == regions && told_irqs == irqs
    }
}

/// The device's own answer starts the questions, with nothing told yet.
pub proof fn law_device_is_asked(n: u32, q: u32, ret: i32, e: IoError)
    ensures
        ({
            let after = device_info::info_next(
                InfoStateView::Device,
                InfoAnswer::Device { ret, num_regions: n, num_irqs: q, last_error: e },
            );
            &&& ret >= 0 ==> asks_on(after, n, q, Seq::empty(), Seq::empty())
            &&& ret < 0 ==> after == InfoStepView::Done(Err(PlatformDeviceError::GetDeviceInfo(e)))
        }),
{
}

/// A region's answer is kept as it is, under the number that was asked for, behind those before it.
pub proof fn law_region_is_told(
    n: u32,
    q: u32,
    regions: Seq<VfioPlatformRegionInfo>,
    ret: i32,
    flags: u32,
    size: u64,
    offset: u64,
    e: IoError,
)
    requires
        regions.len() < n,
    ensures
        ({
            let after = device_info::info_next(
                InfoStateView::Region { num_regions: n, num_irqs: q, regions },
                InfoAnswer::Region { ret, flags, size, offset, last_error: e },
            );
            let told = VfioPlatformRegionInfo { index: regions.len() as u32, flags, size, offset };
            &&& ret >= 0 ==> asks_on(after, n, q, regions.push(told), Seq::empty())
            &&& ret < 0 ==> after == InfoStepView::Done(Err(PlatformDeviceError::GetRegionInfo(e)))
        }),
{
}

/// An interrupt's answer is kept in the same way, and the regions stay as they are.
pub proof fn law_irq_is_told(
    n: u32,
    q: u32,
    regions: Seq<VfioPlatformRegionInfo>,
    irqs: Seq<VfioPlatformIrqInfo>,
    ret: i32,
    flags: u32,
    count: u32,
    e: IoError,
)
    requires
        regions.len() == n,
        irqs.len() < q,
    ensures
        ({
            let after = device_info::info_next(
                InfoStateView::Irq { num_irqs: q, regions, irqs },
                InfoAnswer::Irq { ret, flags, count, last_error: e },
            );
            let told = VfioPlatformIrqInfo { index: irqs.len() as u32, flags, count };
            &&& ret >= 0 ==> asks_on(after, n, q, regions, irqs.push(told))
            &&& ret < 0 ==> after == InfoStepView::Done(Err(PlatformDeviceError::GetIrqInfo(e)))
        }),
{
}

/// Every answer of the right kind is taken while there is something left to ask.
pub proof fn law_info_takes_any_answer(
    n: u32,
    q: u32,
    regions: Seq<VfioPlatformRegionInfo>,
    irqs: Seq<VfioPlatformIrqInfo>,
    ret: i32,
    flags: u32,
    size: u64,
    offset: u64,
    count: u32,
    last_error: IoError,
)
    ensures
        device_info::info_answers(
            InfoStateView::Device,
            InfoAnswer::Device { ret, num_regions: n, num_irqs: q, last_error },
        ),
        regions.len() < n ==> device_info::info_answers(
            InfoStateView::Region { num_regions: n, num_irqs: q, regions },
            InfoAnswer::Region { ret, flags, size, offset, last_error },
        ),
        irqs.len() < q ==> device_info::info_answers(
            InfoStateView::Irq { num_irqs: q, regions, irqs },
            InfoAnswer::Irq { ret, flags, count, last_error },
        ),
{
}

// ---- mapping one region ----

/// A region is mapped at the offset that the kernel gave for it, with the length that is asked for,
/// shared; it can be read if and only if the lowest bit of its flags is set, and written if and only
/// if the next one is.
pub proof fn law_region_is_mapped_where_it_is(region: VfioPlatformRegionInfo, len: u64)
    ensures
        ({
            let args = mapping::region_args(region, len);
            &&& region.offset < 0x8000_0000_0000_0000 ==> args.offset == region.offset
            &&& region.offset >= 0x8000_0000_0000_0000 ==> region.offset - args.offset
                == 0x1_0000_0000_0000_0000
            &&& args.len == len
            &&& args.flags == 1
            &&& args.prot == 0 <==> region.flags & 1 == 0 && region.flags & 2 == 0
            &&& args.prot == 1 <==> region.flags & 1 != 0 && region.flags & 2 == 0
            &&& args.prot == 2 <==> region.flags & 1 == 0 && region.flags & 2 != 0
            &&& args.prot == 3 <==> region.flags & 1 != 0 && region.flags & 2 != 0
        }),
{
}

/// Regions that lie at different offsets of the device are mapped at different offsets.
pub proof fn law_regions_are_mapped_apart(
    one: VfioPlatformRegionInfo,
    other: VfioPlatformRegionInfo,
    len: u64,
    len2: u64,
)
    ensures
        mapping::region_args(one, len).offset == mapping::region_args(other, len2).offset
            <==> one.offset == other.offset,
{
}

/// A mapping is taken over just as it was made, or why there is none is reported.
pub proof fn law_mapping_is_taken_over(
    args: MmapArgs,
    ok: bool,
    e: IoError,
    built: Result<(), String>,
)
    ensures
        ({
            let made = mapping::mmap_next(
                MmapState::Mmap(args),
                MmapAnswer::Mapped { ok, last_error: e },
            );
            let taken = mapping::mmap_next(MmapState::Build, MmapAnswer::Built(built));
            &&& ok ==> made == MmapStep::Call(MmapState::Build, MmapCall::Build(args))
            &&& !ok ==> made == MmapStep::Done(Err(PlatformDeviceError::MmapRegion(e)))
            &&& built is Ok ==> taken == MmapStep::Done(Ok(()))
            &&& built matches Err(why) ==> taken == MmapStep::Done(
                Err(PlatformDeviceError::MmapRegion(IoError::Other(why))),
            )
        }),
        mapping::mmap_answers(MmapState::Mmap(args), MmapAnswer::Mapped { ok, last_error: e }),
        mapping::mmap_answers(MmapState::Build, MmapAnswer::Built(built)),
{
}

// ---- mapping all regions ----

/// The region whose turn it is decides how it is mapped: if the third bit of its flags is set, it is
/// mapped through VFIO, as it is in the plan and as long as the plan says; else physical memory is
/// opened. Behind the last region the guest has what was mapped.
pub proof fn law_turn_of_a_region(
    plan: Seq<PlannedRegion>,
    at: int,
    mapped: Seq<PlatformRegionMapping>,
)
    requires
        0 <= at <= plan.len(),
        at < plan.len() ==> plan[at].len is Some,
    ensures
        ({
            let step = mapping::map_from(plan, at, mapped);
            &&& at == plan.len() ==> step == MapStepView::Done(Ok(mapped))
            &&& at < plan.len() && plan[at].region.flags & 4 != 0 ==> {
                &&& step matches Step::Call(state, MapCall::MmapRegion { region, len })
                &&& state == MapStateView { plan, at, stage: MapStage::MmapRegion, mapped }
                &&& region == plan[at].region && plan[at].len == Some(len)
            }
            &&& at < plan.len() && plan[at].region.flags & 4 == 0 ==> {
                &&& step matches Step::Call(state, MapCall::OpenDevMem { path })
                &&& state == MapStateView { plan, at, stage: MapStage::OpenDevMem, mapped }
                &&& path == mapping::DEVMEM_PATH
            }
        }),
{
}

/// Physical memory stands in for a region at the very address that the region has in the guest, as
/// long as the plan says, for reading and writing, shared.
pub proof fn law_physical_memory_stands_in(
    plan: Seq<PlannedRegion>,
    at: int,
    mapped: Seq<PlatformRegionMapping>,
    e: IoError,
    why: String,
)
    requires
        0 <= at < plan.len(),
        plan[at].len is Some,
    ensures
        ({
            let state = |stage: MapStage| MapStateView { plan, at, stage, mapped };
            let open = state(MapStage::OpenDevMem);
            let map = state(MapStage::MmapDevMem);
            &&& mapping::map_next(open, MapAnswer::Opened(Ok(()))) matches Step::Call(
                then,
                MapCall::MmapDevMem(args),
            )
            &&& then == map
            &&& plan[at].gpa < 0x8000_0000_0000_0000 ==> args.offset == plan[at].gpa
            &&& plan[at].gpa >= 0x8000_0000_0000_0000 ==> plan[at].gpa - args.offset
                == 0x1_0000_0000_0000_0000
            &&& plan[at].len == Some(args.len) && args.prot == 3 && args.flags == 1
            &&& mapping::map_next(open, MapAnswer::Opened(Err(e))) == MapStepView::Done(
                Err(PlatformDeviceError::MmapRegion(e)),
            )
            &&& mapping::map_next(map, MapAnswer::DevMem(DevMemMapping::Mapped))
                == MapStepView::Call(state(MapStage::NextSlot), MapCall::NextSlot)
            &&& mapping::map_next(map, MapAnswer::DevMem(DevMemMapping::Failed))
                == mapping::map_from(plan, at + 1, mapped)
            &&& mapping::map_next(map, MapAnswer::DevMem(DevMemMapping::Unusable(why)))
                == MapStepView::Done(Err(PlatformDeviceError::MmapRegion(IoError::Other(why))))
        }),
{
}

/// A region that is mapped gets a slot, and the guest is given it under that slot, at the address and
/// with the length of the plan, for reading and writing and without a log; then it is the last of
/// those that the guest has, and the next one's turn comes.
pub proof fn law_region_is_given_to_the_guest(
    plan: Seq<PlannedRegion>,
    at: int,
    mapped: Seq<PlatformRegionMapping>,
    slot: u32,
    e: PlatformDeviceError,
    h: HypervisorVmError,
)
    requires
        0 <= at < plan.len(),
        plan[at].len is Some,
    ensures
        ({
            let state = |stage: MapStage| MapStateView { plan, at, stage, mapped };
            let create = state(MapStage::Create { slot });
            let seen = PlatformRegionMapping {
                index: plan[at].region.index,
                slot,
                gpa: plan[at].gpa,
                size: plan[at].len->0,
            };
            &&& mapping::map_next(state(MapStage::MmapRegion), MapAnswer::Region(Ok(())))
                == MapStepView::Call(state(MapStage::NextSlot), MapCall::NextSlot)
            &&& mapping::map_next(state(MapStage::MmapRegion), MapAnswer::Region(Err(e)))
                == MapStepView::Done(Err(e))
            &&& mapping::map_next(
                state(MapStage::NextSlot),
                MapAnswer::Slot(slot),
            ) matches Step::Call(
                then,
                MapCall::CreateUserMemoryRegion { slot: s, gpa, len, readonly, log_dirty_pages },
            )
            &&& then == create
            &&& s == slot && gpa == plan[at].gpa && plan[at].len == Some(len)
            &&& !readonly && !log_dirty_pages
            &&& mapping::map_next(create, MapAnswer::Created(Ok(()))) == mapping::map_from(
                plan,
                at + 1,
                mapped.push(seen),
            )
            &&& mapping::map_next(create, MapAnswer::Created(Err(h))) == MapStepView::Done(
                Err(PlatformDeviceError::CreateUserMemoryRegion(h)),
            )
        }),
{
}

/// Every answer of the right kind is taken, if the region that is being mapped has a length and so
/// has the one whose turn comes with the answer.
pub proof fn law_mapping_takes_any_answer(
    plan: Seq<PlannedRegion>,
    at: int,
    mapped: Seq<PlatformRegionMapping>,
    slot: u32,
    region: Result<(), PlatformDeviceError>,
    opened: Result<(), IoError>,
    devmem: DevMemMapping,
    created: Result<(), HypervisorVmError>,
)
    requires
        0 <= at < plan.len(),
        plan[at].len is Some,
    ensures
        ({
            let state = |stage: MapStage| MapStateView { plan, at, stage, mapped };
            let follows = at + 1 < plan.len() ==> plan[at + 1].len is Some;
            &&& mapping::map_answers(state(MapStage::MmapRegion), MapAnswer::Region(region))
            &&& mapping::map_answers(state(MapStage::OpenDevMem), MapAnswer::Opened(opened))
            &&& mapping::map_answers(state(MapStage::NextSlot), MapAnswer::Slot(slot))
            &&& mapping::map_answers(state(MapStage::MmapDevMem), MapAnswer::DevMem(devmem)) <==> (
            devmem is Failed ==> follows)
            &&& mapping::map_answers(
                state(MapStage::Create { slot }),
                MapAnswer::Created(created),
            ) <==> (created is Ok ==> follows)
            &&& mapping::next_region_fits(
                state(MapStage::MmapDevMem),
                MapAnswer::DevMem(devmem),
            ) <==> (devmem is Failed ==> follows)
            &&& mapping::next_region_fits(
                state(MapStage::Create { slot }),
                MapAnswer::Created(created),
            ) <==> (created is Ok ==> follows)
            &&& mapping::next_region_fits(state(MapStage::MmapRegion), MapAnswer::Region(region))
            &&& mapping::next_region_fits(state(MapStage::OpenDevMem), MapAnswer::Opened(opened))
            &&& mapping::next_region_fits(state(MapStage::NextSlot), MapAnswer::Slot(slot))
        }),
        mapping::has_len(plan, at),
        mapping::has_len(plan, plan.len() as int),
{
}

/// A plan can be begun if and only if it is empty or its first region has a length.
pub proof fn law_plan_can_be_begun(plan: Seq<PlannedRegion>)
    ensures
        mapping::has_len(plan, 0) <==> plan.len() == 0 || plan[0].len is Some,
{
}

// ---- interrupts ----

/// The structure that sets an interrupt's eventfd carries the descriptor itself, the number of the
/// interrupt and the action; it is 24 bytes long, says that its data is an eventfd, and is about one
/// interrupt from the first one on.
pub proof fn law_eventfd_is_carried(index: u32, action: u32, fd: i32)
    ensures
        ({
            let set = irq::irq_set(index, action, fd);
            &&& fd >= 0 ==> set.eventfd == fd
            &&& fd < 0 ==> set.eventfd - fd == 0x1_0000_0000
            &&& set.argsz == 24
            &&& set.flags == 4 | action
            &&& set.index == index && set.start == 0 && set.count == 1
        }),
{
}

/// The interrupt that is wired is the first of those with number 0.
pub proof fn law_first_interrupt_is_taken(irqs: Seq<VfioPlatformIrqInfo>, index: u32)
    ensures
        irq::find_irq(irqs, index) matches Some(found) ==> exists|i: int|
            0 <= i < irqs.len() && #[trigger] irqs[i] == found && found.index == index && forall|
                j: int,
            |
                0 <= j < i ==> (#[trigger] irqs[j]).index != index,
        irq::find_irq(irqs, index) is None <==> forall|i: int|
            0 <= i < irqs.len() ==> (#[trigger] irqs[i]).index != index,
    decreases irqs.len(),
{
    if irqs.len() > 0 {
        let rest = irqs.skip(1);
        law_first_interrupt_is_taken(rest, index);
        if irqs[0].index != index {
            if let Some(found) = irq::find_irq(rest, index) {
                let i = choose|i: int|
                    0 <= i < rest.len() && #[trigger] rest[i] == found && found.index == index
                        && forall|j: int| 0 <= j < i ==> (#[trigger] rest[j]).index != index;
                assert(irqs[i + 1] == found);
                assert forall|j: int| 0 <= j < i + 1 implies (#[trigger] irqs[j]).index != index by {
                    if j > 0 {
                        assert(rest[j - 1] == irqs[j]);
                    }
                }
            } else {
                assert forall|i: int| 0 <= i < irqs.len() implies (#[trigger] irqs[i]).index
                    != index by {
                    if i > 0 {
                        assert(rest[i - 1] == irqs[i]);
                    }
                }
            }
        }
    }
}

/// Wiring starts if and only if the device has an interrupt 0 and the lowest bit of its flags says
/// that it can signal an eventfd.
pub proof fn law_wiring_starts(spi: u32, irqs: Seq<VfioPlatformIrqInfo>)
    ensures
        ({
            let step = irq::irq_start(spi, irqs);
            match irq::find_irq(irqs, 0) {
                None => step == IrqStepView::Done(
                    Err(
                        PlatformDeviceErrorView::GetIrqInfo(
                            IoErrorView::Other("platform device has no IRQ index 0"@),
                        ),
                    ),
                ),
                Some(found) => if found.flags & 1 == 0 {
                    step == IrqStepView::Done(
                        Err(
                            PlatformDeviceErrorView::SetIrqs(
                                IoErrorView::Other(
                                    "platform device IRQ does not support eventfd signaling"@,
                                ),
                            ),
                        ),
                    )
                } else {
                    step == IrqStepView::Call(
                        IrqState::CreateTrigger { spi, index: 0 },
                        IrqCall::CreateTrigger { flags: 0x800 },
                    )
                },
            }
        }),
{
    law_first_interrupt_is_taken(irqs, 0);
}

/// From beginning to end, when nothing fails: the descriptor that the device's interrupt is told to
/// signal is the first eventfd, the one that it is told to be unmasked by is the second, and those
/// are the two that the hypervisor gets, with the number that is 32 above the shared interrupt's.
pub proof fn law_both_sides_get_the_same_eventfds(
    spi: u32,
    index: u32,
    trigger: i32,
    resample: i32,
    ret: i32,
    ret2: i32,
    e: IoError,
    e2: IoError,
)
    requires
        trigger >= 0,
        resample >= 0,
        ret >= 0,
        ret2 >= 0,
        spi < 32,
    ensures
        ({
            let set = IrqAnswer::Returned { ret, last_error: e };
            let set2 = IrqAnswer::Returned { ret: ret2, last_error: e2 };
            &&& irq::irq_next(
                IrqState::CreateTrigger { spi, index },
                IrqAnswer::EventFd(Ok(trigger)),
            ) matches Step::Call(s1, IrqCall::CreateResample { flags })
            &&& flags == 0x800
            &&& irq::irq_next(s1, IrqAnswer::EventFd(Ok(resample))) matches Step::Call(
                s2,
                IrqCall::SetIrqs(signals),
            )
            &&& signals.eventfd == trigger && signals.flags == 4u32 | 32 && signals.index == index
            &&& irq::irq_next(s2, set) matches Step::Call(s3, IrqCall::SetIrqs(unmasks))
            &&& unmasks.eventfd == resample && unmasks.flags == 4u32 | 16 && unmasks.index == index
            &&& irq::irq_next(s3, set2) matches Step::Call(
                s4,
                IrqCall::Register { trigger: t, resample: r, gsi },
            )
            &&& t == signals.eventfd && r == unmasks.eventfd
            &&& gsi == spi + 32
            &&& irq::irq_next(s4, IrqAnswer::Registered(Ok(()))) == IrqStepView::Done(Ok(gsi))
        }),
{
}

/// Every step of wiring an interrupt, whatever the descriptors are, and what goes wrong: an eventfd
/// that cannot be made, a driver call that fails, a shared interrupt from 32 on, which is only
/// noticed once both actions are set, and a hypervisor that refuses.
pub proof fn law_wiring_steps(
    spi: u32,
    index: u32,
    trigger: i32,
    resample: i32,
    ret: i32,
    e: IoError,
    h: HypervisorVmError,
    gsi: u32,
)
    ensures
        ({
            let first = IrqState::CreateTrigger { spi, index };
            let second = IrqState::CreateResample { spi, index, trigger };
            let third = IrqState::SetTrigger { spi, index, trigger, resample };
            let fourth = IrqState::SetUnmask { spi, trigger, resample };
            let set = IrqAnswer::Returned { ret, last_error: e };
            let not_made = IrqStepView::Done(Err(PlatformDeviceErrorView::CreateEventFd(e@)));
            let not_set = IrqStepView::Done(Err(PlatformDeviceErrorView::SetIrqs(e@)));
            &&& irq::irq_next(first, IrqAnswer::EventFd(Ok(trigger))) == IrqStepView::Call(
                second,
                IrqCall::CreateResample { flags: 0x800 },
            )
            &&& irq::irq_next(first, IrqAnswer::EventFd(Err(e))) == not_made
            &&& irq::irq_next(second, IrqAnswer::EventFd(Ok(resample))) == IrqStepView::Call(
                third,
                IrqCall::SetIrqs(irq::irq_set(index, 32, trigger)),
            )
            &&& irq::irq_next(second, IrqAnswer::EventFd(Err(e))) == not_made
            &&& ret < 0 ==> irq::irq_next(third, set) == not_set && irq::irq_next(fourth, set)
                == not_set
            &&& ret >= 0 ==> irq::irq_next(third, set) == IrqStepView::Call(
                fourth,
                IrqCall::SetIrqs(irq::irq_set(index, 16, resample)),
            )
            &&& ret >= 0 && spi < 32 ==> irq::irq_next(fourth, set) == IrqStepView::Call(
                IrqState::Register { gsi: (spi + 32) as u32 },
                IrqCall::Register { trigger, resample, gsi: (spi + 32) as u32 },
            )
            &&& ret >= 0 && spi >= 32 ==> irq::irq_next(fourth, set) == IrqStepView::Done(
                Err(
                    PlatformDeviceErrorView::SetIrqs(
                        IoErrorView::Other(
                            "platform device IRQ must be a legacy-range SPI (0..31), got "@
                                + text::decimal(spi as nat),
                        ),
                    ),
                ),
            )
            &&& irq::irq_next(IrqState::Register { gsi }, IrqAnswer::Registered(Ok(())))
                == IrqStepView::Done(Ok(gsi))
            &&& irq::irq_next(IrqState::Register { gsi }, IrqAnswer::Registered(Err(h)))
                == IrqStepView::Done(Err(PlatformDeviceErrorView::RegisterIrqfd(h.text@)))
        }),
{
}

/// Every answer of the right kind about an interrupt is taken.
pub proof fn law_wiring_takes_any_answer(
    spi: u32,
    index: u32,
    trigger: i32,
    resample: i32,
    gsi: u32,
    fd: Result<i32, IoError>,
    ret: i32,
    last_error: IoError,
    registered: Result<(), HypervisorVmError>,
)
    ensures
        irq::irq_answers(IrqState::CreateTrigger { spi, index }, IrqAnswer::EventFd(fd)),
        irq::irq_answers(IrqState::CreateResample { spi, index, trigger }, IrqAnswer::EventFd(fd)),
        irq::irq_answers(
            IrqState::SetTrigger { spi, index, trigger, resample },
            IrqAnswer::Returned { ret, last_error },
        ),
        irq::irq_answers(
            IrqState::SetUnmask { spi, trigger, resample },
            IrqAnswer::Returned { ret, last_error },
        ),
        irq::irq_answers(IrqState::Register { gsi }, IrqAnswer::Registered(registered)),
{
}

// ---- devices ----

/// Setting a device up: its group is opened first; the device is the one that the configuration
/// names, or else the one that is found in the group, and that name is kept.
pub proof fn law_setup_opens_the_device(
    config: PlatformDeviceConfig,
    found: String,
    name: Seq<char>,
    e: PlatformDeviceError,
)
    ensures
        ({
            let next = |stage: SetupStageView, answer: SetupAnswer|
                platform_device::setup_next(config, stage, answer);
            let open = |n: Seq<char>|
                SetupStepView::Call(
                    (config, SetupStageView::GetDeviceFd { name: n }),
                    SetupCallView::GetDeviceFd { name: n },
                );
            let failed = SetupStepView::Done(Err(e));
            &&& config.device_name matches Some(given) ==> next(
                SetupStageView::OpenGroup,
                SetupAnswer::Group(Ok(())),
            ) == open(given@)
            &&& config.device_name is None ==> next(
                SetupStageView::OpenGroup,
                SetupAnswer::Group(Ok(())),
            ) == SetupStepView::Call(
                (config, SetupStageView::ResolveName),
                SetupCallView::ResolveName,
            )
            &&& next(SetupStageView::ResolveName, SetupAnswer::Name(Ok(found))) == open(found@)
            &&& next(
                SetupStageView::GetDeviceFd { name },
                SetupAnswer::Device(Ok(())),
            ) == SetupStepView::Call(
                (config, SetupStageView::GetDeviceInfo { name }),
                SetupCallView::GetDeviceInfo,
            )
            &&& next(SetupStageView::OpenGroup, SetupAnswer::Group(Err(e))) == failed
            &&& next(SetupStageView::ResolveName, SetupAnswer::Name(Err(e))) == failed
            &&& next(SetupStageView::GetDeviceFd { name }, SetupAnswer::Device(Err(e))) == failed
        }),
{
}

/// The regions that the device says it has are planned and mapped; then its interrupts, as it says
/// them, serve to wire the configured shared interrupt, if one is configured. The device comes out
/// with the regions that were mapped, the interrupt that was wired, and the configured id or else its
/// own name.
pub proof fn law_setup_puts_the_device_together(
    config: PlatformDeviceConfig,
    name: Seq<char>,
    info: DeviceInfo,
    page_size: u64,
    irqs: Seq<VfioPlatformIrqInfo>,
    seen: Vec<PlatformRegionMapping>,
    regions: Seq<PlatformRegionMapping>,
    gsi: u32,
    e: PlatformDeviceError,
)
    ensures
        ({
            let next = |stage: SetupStageView, answer: SetupAnswer|
                platform_device::setup_next(config, stage, answer);
            let asked = SetupStageView::GetDeviceInfo { name };
            let mapping = SetupStageView::MapRegions { name, irqs };
            let wiring = SetupStageView::WireIrq { name, regions };
            let failed = SetupStepView::Done(Err(e));
            &&& next(asked, SetupAnswer::Info { info: Ok(info), page_size }) == SetupStepView::Call(
                (config, SetupStageView::MapRegions { name, irqs: info.1@ }),
                SetupCallView::MapRegions {
                    plan: region::plan_of(config.map@, info.0@, page_size as int),
                },
            )
            &&& next(asked, SetupAnswer::Info { info: Err(e), page_size }) == failed
            &&& config.irq matches Some(spi) ==> next(
                mapping,
                SetupAnswer::Regions(Ok(seen)),
            ) == SetupStepView::Call(
                (config, SetupStageView::WireIrq { name, regions: seen@ }),
                SetupCallView::WireIrq { spi, irqs },
            )
            &&& config.irq is None ==> {
                &&& next(mapping, SetupAnswer::Regions(Ok(seen))) matches Step::Done(Ok(device))
                &&& device.regions == seen@ && device.irq is None
                &&& config.id is None ==> device.id == name
                &&& config.id matches Some(id) ==> device.id == id@
            }
            &&& next(mapping, SetupAnswer::Regions(Err(e))) == failed
            &&& next(wiring, SetupAnswer::Irq(Ok(gsi))) matches Step::Done(Ok(device))
            &&& device.regions == regions && device.irq == Some(PlatformIrq { gsi })
            &&& config.id is None ==> device.id == name
            &&& config.id matches Some(id) ==> device.id == id@
            &&& next(wiring, SetupAnswer::Irq(Err(e))) == failed
        }),
{
}

/// Every answer of the right kind about a device is taken, but for what the device has if its packed
/// regions would leave the range.
pub proof fn law_setup_takes_any_answer(
    config: PlatformDeviceConfig,
    name: Seq<char>,
    irqs: Seq<VfioPlatformIrqInfo>,
    regions: Seq<PlatformRegionMapping>,
    done: Result<(), PlatformDeviceError>,
    found: Result<String, PlatformDeviceError>,
    info: Result<DeviceInfo, PlatformDeviceError>,
    page_size: u64,
    seen: Result<Vec<PlatformRegionMapping>, PlatformDeviceError>,
    gsi: Result<u32, PlatformDeviceError>,
)
    requires
        info matches Ok(has) ==> page_size > 0 && region::layout_fits_in(
            config.map@,
            has.0@,
            page_size as int,
        ),
    ensures
        ({
            let takes = |stage: SetupStageView, answer: SetupAnswer|
                platform_device::setup_answers(config, stage, answer);
            &&& takes(SetupStageView::OpenGroup, SetupAnswer::Group(done))
            &&& takes(SetupStageView::ResolveName, SetupAnswer::Name(found))
            &&& takes(SetupStageView::GetDeviceFd { name }, SetupAnswer::Device(done))
            &&& takes(
                SetupStageView::GetDeviceInfo { name },
                SetupAnswer::Info { info, page_size },
            )
            &&& takes(SetupStageView::MapRegions { name, irqs }, SetupAnswer::Regions(seen))
            &&& takes(SetupStageView::WireIrq { name, regions }, SetupAnswer::Irq(gsi))
        }),
{
}

// ---- the probe ----

/// The probe maps the core's first region, all of it, whatever other regions the core has and whatever
/// the memory management unit has.
pub proof fn law_probe_maps_the_first_region(core: DeviceInfo, mmu: DeviceInfo)
    requires
        core.0@.len() > 0,
    ensures
        ({
            let ok = ProbeAnswer::Returned(Ok(()));
            let answers = seq![
                ok,
                ok,
                ok,
                ok,
                ProbeAnswer::Info(Ok(core)),
                ProbeAnswer::Info(Ok(mmu)),
            ];
            &&& platform_laws::probe_accepted(answers)
            &&& platform_laws::probe_run(answers) matches Step::Call(
                _,
                ProbeCall::MmapRegion { region, len },
            )
            &&& region == core.0@[0]
            &&& len == core.0@[0].size
        }),
{
    reveal_with_fuel(step::run, 8);
    reveal_with_fuel(step::accepted, 8);
    let ok = ProbeAnswer::Returned(Ok(()));
    let a = seq![ok, ok, ok, ok, ProbeAnswer::Info(Ok(core)), ProbeAnswer::Info(Ok(mmu))];
    let b = a.skip(1);
    let c = b.skip(1);
    let d = c.skip(1);
    let e = d.skip(1);
    let f = e.skip(1);
    assert(b[0] == ok && c[0] == ok && d[0] == ok && e[0] == a[4] && f[0] == a[5]);
    assert(f.skip(1).len() == 0);
}

/// The probe step by step: the core's group and device, then those of the memory management unit, then
/// what each has; then the mapping, and then the version. What the core has is kept only as its first
/// region.
pub proof fn law_probe_steps(
    core: DeviceInfo,
    mmu: DeviceInfo,
    region: VfioPlatformRegionInfo,
    version: u32,
)
    ensures
        ({
            let ok = ProbeAnswer::Returned(Ok(()));
            let call = |state: ProbeState, call: ProbeCall| ProbeStepView::Call(state, call);
            &&& probe::probe_next(ProbeState::CoreGroup, ok) == call(
                ProbeState::CoreDevice,
                ProbeCall::GetDeviceFd(ProbeDevice::Core),
            )
            &&& probe::probe_next(ProbeState::CoreDevice, ok) == call(
                ProbeState::MmuGroup,
                ProbeCall::OpenGroup(ProbeDevice::Mmu),
            )
            &&& probe::probe_next(ProbeState::MmuGroup, ok) == call(
                ProbeState::MmuDevice,
                ProbeCall::GetDeviceFd(ProbeDevice::Mmu),
            )
            &&& probe::probe_next(ProbeState::MmuDevice, ok) == call(
                ProbeState::CoreInfo,
                ProbeCall::GetDeviceInfo(ProbeDevice::Core),
            )
            &&& probe::probe_next(ProbeState::CoreInfo, ProbeAnswer::Info(Ok(core))) matches Step::Call(
                ProbeState::MmuInfo { region0 },
                ProbeCall::GetDeviceInfo(which),
            )
            &&& which == ProbeDevice::Mmu
            &&& core.0@.len() == 0 ==> region0 is None
            &&& core.0@.len() > 0 ==> region0 == Some(core.0@[0])
            &&& probe::probe_next(
                ProbeState::MmuInfo { region0: Some(region) },
                ProbeAnswer::Info(Ok(mmu)),
            ) == call(
                ProbeState::MmapRegion,
                ProbeCall::MmapRegion { region, len: region.size },
            )
            &&& probe::probe_next(ProbeState::MmapRegion, ok) == call(
                ProbeState::ReadVersion,
                ProbeCall::ReadVersion,
            )
            &&& version != 0 && version != 0xffff_ffff ==> probe::probe_next(
                ProbeState::ReadVersion,
                ProbeAnswer::Version(version),
            ) == ProbeStepView::Done(Ok(()))
            &&& version == 0 || version == 0xffff_ffff ==> probe::probe_next(
                ProbeState::ReadVersion,
                ProbeAnswer::Version(version),
            ) == ProbeStepView::Done(
                Err(
                    PlatformDeviceErrorView::MmapRegion(
                        IoErrorView::Other("invalid REG_PC_VERSION value"@),
                    ),
                ),
            )
        }),
{
}

/// Whatever fails ends the probe with that error, and every answer of the right kind is taken; what
/// the memory management unit has is only taken if the core has a region.
pub proof fn law_probe_fails(
    state: ProbeState,
    e: PlatformDeviceError,
    region: VfioPlatformRegionInfo,
    done: Result<(), PlatformDeviceError>,
    info: Result<DeviceInfo, PlatformDeviceError>,
    version: u32,
)
    ensures
        probe::probe_next(state, ProbeAnswer::Returned(Err(e))) == ProbeStepView::Done(Err(e@)),
        probe::probe_next(state, ProbeAnswer::Info(Err(e))) == ProbeStepView::Done(Err(e@)),
        probe::probe_answers(ProbeState::CoreGroup, ProbeAnswer::Returned(done)),
        probe::probe_answers(ProbeState::CoreDevice, ProbeAnswer::Returned(done)),
        probe::probe_answers(ProbeState::MmuGroup, ProbeAnswer::Returned(done)),
        probe::probe_answers(ProbeState::MmuDevice, ProbeAnswer::Returned(done)),
        probe::probe_answers(ProbeState::CoreInfo, ProbeAnswer::Info(info)),
        probe::probe_answers(
            ProbeState::MmuInfo { region0: Some(region) },
            ProbeAnswer::Info(info),
        ),
        probe::probe_answers(ProbeState::MmuInfo { region0: None }, ProbeAnswer::Info(info))
            <==> info is Err,
        probe::probe_answers(ProbeState::MmapRegion, ProbeAnswer::Returned(done)),
        probe::probe_answers(ProbeState::ReadVersion, ProbeAnswer::Version(version)),
{
}

} // verus!
