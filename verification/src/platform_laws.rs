//! What holds of setting a platform device up, from beginning to end.

use vstd::prelude::*;

use crate::device_info;
use crate::device_info::{
    InfoAnswer, InfoCall, InfoStateView, InfoStepView, VfioPlatformIrqInfo, VfioPlatformRegionInfo,
};
use crate::group;
use crate::group::{GroupAnswer, GroupCall, GroupStage, GroupState, GroupStep};
use crate::irq;
use crate::irq::{IrqAnswer, IrqCall, IrqState, IrqStepView};
use crate::mapping;
use crate::mapping::{
    DevMemMapping, MapAnswer, MapCall, MapStage, MapStateView, MapStepView, MmapAnswer, MmapCall,
    MmapState, MmapStep, PlatformRegionMapping,
};
use crate::path::HostPath;
use crate::platform_device;
use crate::platform_device::{
    PlatformDeviceConfig, PlatformDeviceView, SetupAnswer, SetupCallView, SetupStageView,
    SetupStepView,
};
use crate::platform_error::{IoError, PlatformDeviceError};
use crate::probe;
use crate::probe::{ProbeAnswer, ProbeCall, ProbeDevice, ProbeState, ProbeStepView};
use crate::region;
use crate::region::PlannedRegion;
use crate::step;
use crate::step::Step;
use crate::vfio::{
    VfioDeviceInfo, DEVICE_INFO_SIZE, VFIO_GROUP_FLAGS_VIABLE, VFIO_IRQ_INFO_EVENTFD,
    VFIO_IRQ_SET_ACTION_TRIGGER, VFIO_IRQ_SET_ACTION_UNMASK, VFIO_REGION_INFO_FLAG_MMAP,
    VFIO_REGION_INFO_FLAG_READ, VFIO_REGION_INFO_FLAG_WRITE,
};

verus! {

// ---- groups ----

/// The step after answers about a group came in.
pub open spec fn group_run(path: HostPath, answers: Seq<GroupAnswer>) -> GroupStep {
    step::run(
        |state: GroupState, answer: GroupAnswer| group::group_next(state, answer),
        Step::Call(
            GroupState { path, stage: GroupStage::OpenContainer },
            GroupCall::OpenContainer { path: group::CONTAINER_PATH },
        ),
        answers,
    )
}

/// The answers are to the calls that opening a group makes.
pub open spec fn group_accepted(path: HostPath, answers: Seq<GroupAnswer>) -> bool {
    step::accepted(
        |state: GroupState, answer: GroupAnswer| group::group_next(state, answer),
        |state: GroupState, answer: GroupAnswer| group::group_answers(state, answer),
        Step::Call(
            GroupState { path, stage: GroupStage::OpenContainer },
            GroupCall::OpenContainer { path: group::CONTAINER_PATH },
        ),
        answers,
    )
}

/// Everything went well: both files were opened, the group can be used, and it was put into the
/// container before the container's IOMMU model was set.
pub open spec fn group_went_well(answers: Seq<GroupAnswer>) -> bool {
    &&& answers.len() >= 5
    &&& answers[0] matches GroupAnswer::Opened(Ok(_))
    &&& answers[1] matches GroupAnswer::Opened(Ok(_))
    &&& answers[2] matches GroupAnswer::Status { ret, flags, .. }
    &&& ret >= 0 && flags & VFIO_GROUP_FLAGS_VIABLE != 0
    &&& answers[3] matches GroupAnswer::Returned { ret: set_container, .. }
    &&& set_container >= 0
    &&& answers[4] matches GroupAnswer::Returned { ret: set_iommu, .. }
    &&& set_iommu >= 0
}

/// A group is open if and only if everything went well, and opening one ends after five answers at
/// the latest.
pub proof fn law_group_opens(path: HostPath, answers: Seq<GroupAnswer>)
    requires
        group_accepted(path, answers),
    ensures
        group_run(path, answers) == GroupStep::Done(Ok(())) <==> group_went_well(answers),
        answers.len() >= 5 ==> group_run(path, answers) is Done,
{
    reveal_with_fuel(step::run, 7);
    reveal_with_fuel(step::accepted, 7);
    let a1 = answers.skip(1);
    let a2 = a1.skip(1);
    let a3 = a2.skip(1);
    let a4 = a3.skip(1);
    if answers.len() >= 2 {
        assert(a1[0] == answers[1]);
    }
    if answers.len() >= 3 {
        assert(a2[0] == answers[2]);
    }
    if answers.len() >= 4 {
        assert(a3[0] == answers[3]);
    }
    if answers.len() >= 5 {
        assert(a4[0] == answers[4]);
    }
}

// ---- what a device has ----

/// What comes after an answer about a device's regions and interrupts.
pub open spec fn info_rule() -> spec_fn(InfoStateView, InfoAnswer) -> InfoStepView {
    |state: InfoStateView, answer: InfoAnswer| device_info::info_next(state, answer)
}

/// The step after answers came in that fit.
pub open spec fn info_run(step: InfoStepView, answers: Seq<InfoAnswer>) -> InfoStepView {
    step::run(info_rule(), step, answers)
}

/// The answers are to the questions that are asked.
pub open spec fn info_accepted(step: InfoStepView, answers: Seq<InfoAnswer>) -> bool {
    step::accepted(
        info_rule(),
        |state: InfoStateView, answer: InfoAnswer| device_info::info_answers(state, answer),
        step,
        answers,
    )
}

/// The answer describes that region.
pub open spec fn tells_region(answer: InfoAnswer, region: VfioPlatformRegionInfo) -> bool {
    answer matches InfoAnswer::Region { ret, flags, size, offset, .. } && ret >= 0 && region.flags
        == flags && region.size == size && region.offset == offset
}

/// The answer describes that interrupt.
pub open spec fn tells_irq(answer: InfoAnswer, irq: VfioPlatformIrqInfo) -> bool {
    answer matches InfoAnswer::Irq { ret, flags, count, .. } && ret >= 0 && irq.flags == flags
        && irq.count == count
}

proof fn lemma_info_irqs(
    q: u32,
    regions: Seq<VfioPlatformRegionInfo>,
    irqs: Seq<VfioPlatformIrqInfo>,
    answers: Seq<InfoAnswer>,
)
    requires
        irqs.len() <= q,
        device_info::irqs_numbered(irqs),
        info_accepted(device_info::ask_irqs(q, regions, irqs), answers),
    ensures
        answers.len() + irqs.len() >= q ==> info_run(
            device_info::ask_irqs(q, regions, irqs),
            answers,
        ) is Done,
        info_run(device_info::ask_irqs(q, regions, irqs), answers) matches Step::Done(Ok((r, i)))
            ==> {
            &&& r == regions
            &&& i.len() == q && device_info::irqs_numbered(i)
            &&& answers.len() + irqs.len() >= q
            &&& forall|j: int| 0 <= j < irqs.len() ==> #[trigger] i[j] == irqs[j]
            &&& forall|j: int|
                irqs.len() <= j < q ==> tells_irq(answers[j - irqs.len()], #[trigger] i[j])
        },
    decreases answers.len(),
{
    let step = device_info::ask_irqs(q, regions, irqs);
    if irqs.len() < q && answers.len() > 0 {
        if let InfoAnswer::Irq { ret, flags, count, .. } = answers[0] {
            if ret >= 0 {
                let index = irqs.len() as u32;
                let more = irqs.push(VfioPlatformIrqInfo { index, flags, count });
                let rest = answers.skip(1);
                lemma_info_irqs(q, regions, more, rest);
                if let Step::Done(Ok((r, i))) = info_run(step, answers) {
                    assert(i[irqs.len() as int] == more[irqs.len() as int]);
                    assert forall|j: int| 0 <= j < irqs.len() implies #[trigger] i[j] == irqs[j] by {
                        assert(i[j] == more[j]);
                    }
                    assert forall|j: int| irqs.len() <= j < q implies tells_irq(
                        answers[j - irqs.len()],
                        #[trigger] i[j],
                    ) by {
                        if j > irqs.len() {
                            assert(tells_irq(rest[j - more.len()], i[j]));
                            assert(rest[j - more.len()] == answers[j - irqs.len()]);
                        }
                    }
                }
            } else {
                reveal_with_fuel(step::run, 2);
            }
        }
    }
}

proof fn lemma_info_regions(
    n: u32,
    q: u32,
    regions: Seq<VfioPlatformRegionInfo>,
    answers: Seq<InfoAnswer>,
)
    requires
        regions.len() <= n,
        device_info::regions_numbered(regions),
        info_accepted(device_info::ask_regions(n, q, regions), answers),
    ensures
        answers.len() + regions.len() >= n + q ==> info_run(
            device_info::ask_regions(n, q, regions),
            answers,
        ) is Done,
        info_run(device_info::ask_regions(n, q, regions), answers) matches Step::Done(Ok((r, i)))
            ==> {
            &&& r.len() == n && device_info::regions_numbered(r)
            &&& i.len() == q && device_info::irqs_numbered(i)
            &&& answers.len() + regions.len() >= n + q
            &&& forall|j: int| 0 <= j < regions.len() ==> #[trigger] r[j] == regions[j]
            &&& forall|j: int|
                regions.len() <= j < n ==> tells_region(
                    answers[j - regions.len()],
                    #[trigger] r[j],
                )
            &&& forall|j: int|
                0 <= j < q ==> tells_irq(answers[n - regions.len() + j], #[trigger] i[j])
        },
    decreases answers.len(),
{
    let step = device_info::ask_regions(n, q, regions);
    if regions.len() < n {
        if answers.len() > 0 {
            if let InfoAnswer::Region { ret, flags, size, offset, .. } = answers[0] {
                if ret >= 0 {
                    let index = regions.len() as u32;
                    let more = regions.push(VfioPlatformRegionInfo { index, flags, size, offset });
                    let rest = answers.skip(1);
                    lemma_info_regions(n, q, more, rest);
                    if let Step::Done(Ok((r, i))) = info_run(step, answers) {
                        assert(r[regions.len() as int] == more[regions.len() as int]);
                        assert forall|j: int| 0 <= j < regions.len() implies #[trigger] r[j]
                            == regions[j] by {
                            assert(r[j] == more[j]);
                        }
                        assert forall|j: int| regions.len() <= j < n implies tells_region(
                            answers[j - regions.len()],
                            #[trigger] r[j],
                        ) by {
                            if j > regions.len() {
                                assert(tells_region(rest[j - more.len()], r[j]));
                                assert(rest[j - more.len()] == answers[j - regions.len()]);
                            }
                        }
                        assert forall|j: int| 0 <= j < q implies tells_irq(
                            answers[n - regions.len() + j],
                            #[trigger] i[j],
                        ) by {
                            assert(tells_irq(rest[n - more.len() + j], i[j]));
                            assert(rest[n - more.len() + j] == answers[n - regions.len() + j]);
                        }
                    }
                } else {
                    reveal_with_fuel(step::run, 2);
                }
            }
        }
    } else {
        lemma_info_irqs(q, regions, Seq::empty(), answers);
    }
}

/// What comes out is what the device said: as many regions and interrupts as it has, numbered from
/// zero, each with what the answer to the question about it told. One answer for the device and one
/// for each of them is enough.
pub proof fn law_device_says_what_it_has(
    n: u32,
    q: u32,
    ret: i32,
    last_error: IoError,
    answers: Seq<InfoAnswer>,
)
    requires
        ret >= 0,
        info_accepted(device_info::ask_regions(n, q, Seq::empty()), answers),
    ensures
        ({
            let first = InfoAnswer::Device { ret, num_regions: n, num_irqs: q, last_error };
            let all = seq![first] + answers;
            let begin: InfoStepView = Step::Call(
                InfoStateView::Device,
                InfoCall::Device(
                    VfioDeviceInfo {
                        argsz: DEVICE_INFO_SIZE,
                        flags: 0,
                        num_regions: 0,
                        num_irqs: 0,
                        cap_offset: 0,
                        pad: 0,
                    },
                ),
            );
            &&& answers.len() >= n + q ==> info_run(begin, all) is Done
            &&& info_run(begin, all) matches Step::Done(Ok((regions, irqs))) ==> {
                &&& regions.len() == n && device_info::regions_numbered(regions)
                &&& irqs.len() == q && device_info::irqs_numbered(irqs)
                &&& forall|j: int|
                    0 <= j < n ==> tells_region(answers[j], #[trigger] regions[j])
                &&& forall|j: int| 0 <= j < q ==> tells_irq(answers[n + j], #[trigger] irqs[j])
            }
        }),
{
    let first = InfoAnswer::Device { ret, num_regions: n, num_irqs: q, last_error };
    let all = seq![first] + answers;
    assert(all.skip(1) =~= answers);
    lemma_info_regions(n, q, Seq::empty(), answers);
}

// ---- mappings ----

/// A mapping allows what the region's flags allow, and nothing else.
pub proof fn law_protection(flags: u32)
    ensures
        mapping::prot_of(flags) == (if flags & VFIO_REGION_INFO_FLAG_READ != 0 {
            mapping::PROT_READ
        } else {
            mapping::PROT_NONE
        }) + (if flags & VFIO_REGION_INFO_FLAG_WRITE != 0 {
            mapping::PROT_WRITE
        } else {
            mapping::PROT_NONE
        }),
{
}

/// A region is mapped if and only if there is a mapping and it could be taken over, and it is taken
/// over as it was made.
pub proof fn law_region_is_mapped(
    region: VfioPlatformRegionInfo,
    len: u64,
    ok: bool,
    last_error: IoError,
    built: Result<(), String>,
)
    ensures
        ({
            let args = mapping::region_args(region, len);
            let mapped = MmapAnswer::Mapped { ok, last_error };
            &&& mapping::mmap_next(MmapState::Mmap(args), mapped) == if ok {
                MmapStep::Call(MmapState::Build, MmapCall::Build(args))
            } else {
                MmapStep::Done(Err(PlatformDeviceError::MmapRegion(last_error)))
            }
            &&& mapping::mmap_next(MmapState::Build, MmapAnswer::Built(built)) == match built {
                Ok(_) => MmapStep::Done(Ok(())),
                Err(text) => MmapStep::Done(
                    Err(PlatformDeviceError::MmapRegion(IoError::Other(text))),
                ),
            }
        }),
{
}

/// The device's region can be mapped through VFIO.
pub open spec fn mappable(planned: PlannedRegion) -> bool {
    planned.region.flags & VFIO_REGION_INFO_FLAG_MMAP != 0
}

/// What the guest sees is the planned region: the same region of the device, at the same place.
pub open spec fn is_planned(planned: PlannedRegion, seen: PlatformRegionMapping) -> bool {
    &&& seen.index == planned.region.index
    &&& seen.gpa == planned.gpa
    &&& Some(seen.size) == planned.len
}

/// What the guest sees is the plan, in order; only regions that VFIO lets nobody map may be left out.
pub open spec fn follows(plan: Seq<PlannedRegion>, seen: Seq<PlatformRegionMapping>) -> bool
    decreases plan.len(),
{
    if plan.len() == 0 {
        seen.len() == 0
    } else {
        ||| seen.len() > 0 && is_planned(plan.last(), seen.last()) && follows(
            plan.drop_last(),
            seen.drop_last(),
        )
        ||| !mappable(plan.last()) && follows(plan.drop_last(), seen)
    }
}

/// What comes after an answer about a mapping.
pub open spec fn map_rule() -> spec_fn(MapStateView, MapAnswer) -> MapStepView {
    |state: MapStateView, answer: MapAnswer| mapping::map_next(state, answer)
}

/// The step after answers about mappings came in.
pub open spec fn map_run(plan: Seq<PlannedRegion>, answers: Seq<MapAnswer>) -> MapStepView {
    step::run(map_rule(), mapping::map_from(plan, 0, Seq::empty()), answers)
}

/// The answers are to the calls that mapping makes.
pub open spec fn map_accepted(plan: Seq<PlannedRegion>, answers: Seq<MapAnswer>) -> bool {
    step::accepted(
        map_rule(),
        |state: MapStateView, answer: MapAnswer| mapping::map_answers(state, answer),
        mapping::map_from(plan, 0, Seq::empty()),
        answers,
    )
}

/// What has been mapped so far is what the plan says, up to where mapping stands, and the region
/// that is being mapped is the one that the outstanding call is about.
pub open spec fn map_sound(step: MapStepView, plan: Seq<PlannedRegion>) -> bool {
    match step {
        Step::Call(state, call) => {
            &&& state.plan == plan
            &&& mapping::map_can_resume(state)
            &&& follows(plan.take(state.at), state.mapped)
            &&& state.stage is MmapRegion ==> mappable(plan[state.at])
            &&& state.stage is OpenDevMem || state.stage is MmapDevMem ==> !mappable(plan[state.at])
            &&& match call {
                MapCall::MmapRegion { region, len } => region == plan[state.at].region && Some(len)
                    == plan[state.at].len,
                MapCall::OpenDevMem { path } => path == mapping::DEVMEM_PATH,
                MapCall::MmapDevMem(args) => args == mapping::devmem_args(
                    plan[state.at].gpa,
                    plan[state.at].len->0,
                ),
                MapCall::NextSlot => true,
                MapCall::CreateUserMemoryRegion { gpa, len, .. } => gpa == plan[state.at].gpa
                    && Some(len) == plan[state.at].len,
            }
        },
        Step::Done(Ok(seen)) => follows(plan, seen),
        Step::Done(Err(_)) => true,
    }
}

proof fn lemma_map_from(plan: Seq<PlannedRegion>, at: int, seen: Seq<PlatformRegionMapping>)
    requires
        0 <= at <= plan.len(),
        mapping::has_len(plan, at),
        follows(plan.take(at), seen),
    ensures
        map_sound(mapping::map_from(plan, at, seen), plan),
{
    if at == plan.len() {
        assert(plan.take(at) =~= plan);
    }
}

proof fn lemma_map_next(
    state: MapStateView,
    call: MapCall,
    answer: MapAnswer,
    plan: Seq<PlannedRegion>,
)
    requires
        map_sound(Step::Call(state, call), plan),
        mapping::map_answers(state, answer),
    ensures
        map_sound(mapping::map_next(state, answer), plan),
{
    let at = state.at;
    let longer = plan.take(at + 1);
    assert(longer.drop_last() =~= plan.take(at));
    assert(longer.last() == plan[at]);
    match (state.stage, answer) {
        (MapStage::MmapDevMem, MapAnswer::DevMem(DevMemMapping::Failed)) => {
            lemma_map_from(plan, at + 1, state.mapped);
        },
        (MapStage::Create { slot }, MapAnswer::Created(Ok(_))) => {
            let seen = PlatformRegionMapping {
                index: plan[at].region.index,
                slot,
                gpa: plan[at].gpa,
                size: plan[at].len->0,
            };
            assert(state.mapped.push(seen).drop_last() =~= state.mapped);
            assert(is_planned(longer.last(), state.mapped.push(seen).last()));
            lemma_map_from(plan, at + 1, state.mapped.push(seen));
        },
        _ => {},
    }
}

/// If the regions could be mapped, the guest sees the plan: every region that VFIO lets itself be
/// mapped, where the plan puts it, and of the others those that physical memory could stand in for.
/// On the way nothing is mapped or shown to the guest that the plan does not hold.
pub proof fn law_guest_sees_the_plan(plan: Seq<PlannedRegion>, answers: Seq<MapAnswer>)
    requires
        mapping::has_len(plan, 0),
        map_accepted(plan, answers),
    ensures
        map_sound(map_run(plan, answers), plan),
{
    let fits = |state: MapStateView, answer: MapAnswer| mapping::map_answers(state, answer);
    let inv = |step: MapStepView| map_sound(step, plan);
    assert(follows(plan.take(0), Seq::empty()));
    lemma_map_from(plan, 0, Seq::empty());
    assert forall|state: MapStateView, call: MapCall, answer: MapAnswer|
        #![trigger inv(Step::Call(state, call)), fits(state, answer)]
        inv(Step::Call(state, call)) && fits(state, answer) implies inv(
        map_rule()(state, answer),
    ) by {
        lemma_map_next(state, call, answer, plan);
    }
    step::lemma_run_keeps(
        map_rule(),
        fits,
        inv,
        mapping::map_from(plan, 0, Seq::empty()),
        answers,
    );
}

/// What the guest sees is no more than the plan, and it is all of it if every region can be mapped
/// through VFIO.
pub proof fn law_following_is_complete(plan: Seq<PlannedRegion>, seen: Seq<PlatformRegionMapping>)
    requires
        follows(plan, seen),
    ensures
        seen.len() <= plan.len(),
        (forall|i: int| 0 <= i < plan.len() ==> mappable(#[trigger] plan[i])) ==> {
            &&& seen.len() == plan.len()
            &&& forall|i: int| 0 <= i < plan.len() ==> is_planned(plan[i], #[trigger] seen[i])
        },
    decreases plan.len(),
{
    if plan.len() > 0 {
        let init = plan.drop_last();
        if seen.len() > 0 && is_planned(plan.last(), seen.last()) && follows(
            init,
            seen.drop_last(),
        ) {
            law_following_is_complete(init, seen.drop_last());
            if forall|i: int| 0 <= i < plan.len() ==> mappable(#[trigger] plan[i]) {
                assert forall|i: int| 0 <= i < init.len() implies mappable(#[trigger] init[i]) by {
                    assert(mappable(plan[i]));
                }
                assert forall|i: int| 0 <= i < plan.len() implies is_planned(
                    plan[i],
                    #[trigger] seen[i],
                ) by {
                    if i < init.len() {
                        assert(seen.drop_last()[i] == seen[i]);
                    }
                }
            }
        } else {
            law_following_is_complete(init, seen);
            assert(!mappable(plan[plan.len() - 1]));
        }
    }
}

/// If the plan's first region can be mapped through VFIO, it is the first that the guest sees.
pub proof fn law_first_region_comes_first(plan: Seq<PlannedRegion>, seen: Seq<PlatformRegionMapping>)
    requires
        follows(plan, seen),
        plan.len() > 0,
        mappable(plan[0]),
    ensures
        seen.len() > 0,
        is_planned(plan[0], seen[0]),
    decreases plan.len(),
{
    reveal_with_fuel(follows, 2);
    let init = plan.drop_last();
    if plan.len() > 1 {
        if seen.len() > 0 && is_planned(plan.last(), seen.last()) && follows(
            init,
            seen.drop_last(),
        ) {
            law_first_region_comes_first(init, seen.drop_last());
        } else {
            law_first_region_comes_first(init, seen);
        }
    }
}

/// How many answers mapping still takes at most.
pub open spec fn map_left(step: MapStepView) -> nat {
    match step {
        Step::Done(_) => 0,
        Step::Call(state, _) => if 0 <= state.at < state.plan.len() {
            (4 * (state.plan.len() - state.at) - match state.stage {
                MapStage::OpenDevMem => 0int,
                MapStage::MmapRegion => 1,
                MapStage::MmapDevMem => 1,
                MapStage::NextSlot => 2,
                MapStage::Create { .. } => 3,
            }) as nat
        } else {
            1
        },
    }
}

/// Mapping ends after four answers for each region at the latest.
pub proof fn law_mapping_ends(plan: Seq<PlannedRegion>, answers: Seq<MapAnswer>)
    requires
        map_accepted(plan, answers),
        answers.len() >= 4 * plan.len(),
    ensures
        map_run(plan, answers) is Done,
{
    let fits = |state: MapStateView, answer: MapAnswer| mapping::map_answers(state, answer);
    let left = |step: MapStepView| map_left(step);
    assert forall|state: MapStateView, call: MapCall, answer: MapAnswer|
        #![trigger left(Step::Call(state, call)), fits(state, answer)]
        fits(state, answer) implies left(map_rule()(state, answer)) < left(
        Step::Call(state, call),
    ) by {}
    step::lemma_run_ends(
        map_rule(),
        fits,
        left,
        mapping::map_from(plan, 0, Seq::empty()),
        answers,
    );
}

// ---- interrupts ----

/// What comes after an answer about an interrupt.
pub open spec fn irq_rule() -> spec_fn(IrqState, IrqAnswer) -> IrqStepView {
    |state: IrqState, answer: IrqAnswer| irq::irq_next(state, answer)
}

/// The step after answers about an interrupt came in.
pub open spec fn irq_run(
    spi: u32,
    irqs: Seq<VfioPlatformIrqInfo>,
    answers: Seq<IrqAnswer>,
) -> IrqStepView {
    step::run(irq_rule(), irq::irq_start(spi, irqs), answers)
}

/// The answers are to the calls that wiring an interrupt makes.
pub open spec fn irq_accepted(
    spi: u32,
    irqs: Seq<VfioPlatformIrqInfo>,
    answers: Seq<IrqAnswer>,
) -> bool {
    step::accepted(
        irq_rule(),
        |state: IrqState, answer: IrqAnswer| irq::irq_answers(state, answer),
        irq::irq_start(spi, irqs),
        answers,
    )
}

/// The step is about that interrupt of the guest.
pub open spec fn irq_sound(step: IrqStepView, spi: u32, irqs: Seq<VfioPlatformIrqInfo>) -> bool {
    match step {
        Step::Call(state, call) => {
            &&& match state {
                IrqState::CreateTrigger { spi: s, index } => s == spi && index
                    == irq::VFIO_PLATFORM_IRQ_INDEX,
                IrqState::CreateResample { spi: s, index, .. } => s == spi && index
                    == irq::VFIO_PLATFORM_IRQ_INDEX,
                IrqState::SetTrigger { spi: s, index, .. } => s == spi && index
                    == irq::VFIO_PLATFORM_IRQ_INDEX,
                IrqState::SetUnmask { spi: s, .. } => s == spi,
                IrqState::Register { gsi } => gsi == spi + irq::SPI_BASE && spi < irq::SPI_BASE,
            }
            &&& call matches IrqCall::SetIrqs(set) ==> set.index == irq::VFIO_PLATFORM_IRQ_INDEX
            &&& call matches IrqCall::Register { gsi, .. } ==> gsi == spi + irq::SPI_BASE && spi
                < irq::SPI_BASE
        },
        Step::Done(Ok(gsi)) => gsi == spi + irq::SPI_BASE && spi < irq::SPI_BASE,
        Step::Done(Err(_)) => true,
    }
}

proof fn lemma_find_irq(irqs: Seq<VfioPlatformIrqInfo>, index: u32)
    ensures
        irq::find_irq(irqs, index) matches Some(found) ==> found.index == index && irqs.contains(
            found,
        ),
        irq::find_irq(irqs, index) is None ==> forall|i: int|
            0 <= i < irqs.len() ==> (#[trigger] irqs[i]).index != index,
    decreases irqs.len(),
{
    if irqs.len() > 0 {
        let rest = irqs.skip(1);
        lemma_find_irq(rest, index);
        if irqs[0].index == index {
            assert(irqs.contains(irqs[0]));
        } else {
            if let Some(found) = irq::find_irq(rest, index) {
                let i = choose|i: int| 0 <= i < rest.len() && rest[i] == found;
                assert(irqs[i + 1] == found);
            } else {
                assert forall|i: int| 0 <= i < irqs.len() implies (#[trigger] irqs[i]).index
                    != index by {
                    if i > 0 {
                        assert(rest[i - 1] == irqs[i]);
                    }
                }
            }
        }
    }
}

/// The guest's interrupt is wired only if the device has the interrupt and it can signal an eventfd,
/// and only to the number that belongs to the shared interrupt that was asked for, which is one of
/// those that the hypervisor routes: 32 to 63.
pub proof fn law_wired_interrupt(
    spi: u32,
    irqs: Seq<VfioPlatformIrqInfo>,
    answers: Seq<IrqAnswer>,
)
    requires
        irq_accepted(spi, irqs, answers),
    ensures
        irq_sound(irq_run(spi, irqs, answers), spi, irqs),
        irq_run(spi, irqs, answers) matches Step::Done(Ok(gsi)) ==> {
            &&& 32 <= gsi < 64
            &&& exists|i: int|
                0 <= i < irqs.len() && (#[trigger] irqs[i]).index == irq::VFIO_PLATFORM_IRQ_INDEX
                    && irqs[i].flags & VFIO_IRQ_INFO_EVENTFD != 0
        },
{
    let fits = |state: IrqState, answer: IrqAnswer| irq::irq_answers(state, answer);
    let inv = |step: IrqStepView| irq_sound(step, spi, irqs);
    lemma_find_irq(irqs, irq::VFIO_PLATFORM_IRQ_INDEX);
    assert forall|state: IrqState, call: IrqCall, answer: IrqAnswer|
        #![trigger inv(Step::Call(state, call)), fits(state, answer)]
        inv(Step::Call(state, call)) && fits(state, answer) implies inv(
        irq_rule()(state, answer),
    ) by {}
    step::lemma_run_keeps(irq_rule(), fits, inv, irq::irq_start(spi, irqs), answers);
    reveal_with_fuel(step::run, 2);
    if let Some(found) = irq::find_irq(irqs, irq::VFIO_PLATFORM_IRQ_INDEX) {
        let i = choose|i: int| 0 <= i < irqs.len() && irqs[i] == found;
        assert(irqs[i].index == irq::VFIO_PLATFORM_IRQ_INDEX);
    }
}

/// Wiring goes in order: the two eventfds are made, the first is set as what the interrupt signals,
/// the second as what unmasks it. Then the range of the interrupt's number is looked at, and only if
/// it is good the hypervisor gets both eventfds.
pub proof fn law_wiring_order(
    spi: u32,
    irqs: Seq<VfioPlatformIrqInfo>,
    trigger: i32,
    resample: i32,
    e: IoError,
)
    requires
        irq::irq_start(spi, irqs) is Call,
    ensures
        ({
            let made = seq![IrqAnswer::EventFd(Ok(trigger)), IrqAnswer::EventFd(Ok(resample))];
            let set = IrqAnswer::Returned { ret: 0, last_error: e };
            &&& irq_run(spi, irqs, made) matches Step::Call(_, c1)
            &&& c1 == IrqCall::SetIrqs(
                irq::irq_set(
                    irq::VFIO_PLATFORM_IRQ_INDEX,
                    VFIO_IRQ_SET_ACTION_TRIGGER,
                    trigger,
                ),
            )
            &&& irq_run(spi, irqs, made.push(set)) matches Step::Call(_, c2)
            &&& c2 == IrqCall::SetIrqs(
                irq::irq_set(
                    irq::VFIO_PLATFORM_IRQ_INDEX,
                    VFIO_IRQ_SET_ACTION_UNMASK,
                    resample,
                ),
            )
            &&& spi < irq::SPI_BASE ==> {
                &&& irq_run(spi, irqs, made.push(set).push(set)) matches Step::Call(_, c3)
                &&& c3 == IrqCall::Register {
                    trigger,
                    resample,
                    gsi: (spi + irq::SPI_BASE) as u32,
                }
            }
            &&& spi >= irq::SPI_BASE ==> irq_run(
                spi,
                irqs,
                made.push(set).push(set),
            ) matches Step::Done(Err(_))
        }),
{
    reveal_with_fuel(step::run, 6);
    lemma_find_irq(irqs, irq::VFIO_PLATFORM_IRQ_INDEX);
    let a = seq![IrqAnswer::EventFd(Ok(trigger)), IrqAnswer::EventFd(Ok(resample))];
    let set = IrqAnswer::Returned { ret: 0, last_error: e };
    let b = a.push(set);
    let c = b.push(set);
    assert(a.skip(1)[0] == a[1]);
    assert(b.skip(1)[0] == a[1] && b.skip(1).skip(1)[0] == set);
    assert(c.skip(1)[0] == a[1] && c.skip(1).skip(1)[0] == set && c.skip(1).skip(1).skip(1)[0]
        == set);
}

// ---- devices ----

/// What comes after an answer about a device.
pub open spec fn setup_rule() -> spec_fn(
    (PlatformDeviceConfig, SetupStageView),
    SetupAnswer,
) -> SetupStepView {
    |state: (PlatformDeviceConfig, SetupStageView), answer: SetupAnswer|
        platform_device::setup_next(state.0, state.1, answer)
}

/// The first step.
pub open spec fn setup_start(config: PlatformDeviceConfig) -> SetupStepView {
    Step::Call((config, SetupStageView::OpenGroup), SetupCallView::OpenGroup)
}

/// The step after answers about a device came in.
pub open spec fn setup_run(config: PlatformDeviceConfig, answers: Seq<SetupAnswer>) -> SetupStepView {
    step::run(setup_rule(), setup_start(config), answers)
}

/// The answers are to the calls that setting a device up makes.
pub open spec fn setup_accepted(config: PlatformDeviceConfig, answers: Seq<SetupAnswer>) -> bool {
    step::accepted(
        setup_rule(),
        |state: (PlatformDeviceConfig, SetupStageView), answer: SetupAnswer|
            platform_device::setup_answers(state.0, state.1, answer),
        setup_start(config),
        answers,
    )
}

/// How many answers setting a device up still takes at most.
pub open spec fn setup_left(step: SetupStepView) -> nat {
    match step {
        Step::Done(_) => 0,
        Step::Call((_, stage), _) => match stage {
            SetupStageView::OpenGroup => 6,
            SetupStageView::ResolveName => 5,
            SetupStageView::GetDeviceFd { .. } => 4,
            SetupStageView::GetDeviceInfo { .. } => 3,
            SetupStageView::MapRegions { .. } => 2,
            SetupStageView::WireIrq { .. } => 1,
        },
    }
}

/// Setting a device up ends after six procedures at the latest.
pub proof fn law_setup_ends(config: PlatformDeviceConfig, answers: Seq<SetupAnswer>)
    requires
        setup_accepted(config, answers),
        answers.len() >= 6,
    ensures
        setup_run(config, answers) is Done,
{
    let fits = |state: (PlatformDeviceConfig, SetupStageView), answer: SetupAnswer|
        platform_device::setup_answers(state.0, state.1, answer);
    let left = |step: SetupStepView| setup_left(step);
    assert forall|
        state: (PlatformDeviceConfig, SetupStageView),
        call: SetupCallView,
        answer: SetupAnswer,
    |
        #![trigger left(Step::Call(state, call)), fits(state, answer)]
        fits(state, answer) implies left(setup_rule()(state, answer)) < left(
        Step::Call(state, call),
    ) by {}
    step::lemma_run_ends(setup_rule(), fits, left, setup_start(config), answers);
}

/// The device is called what the configuration says, or by its own name; the configuration's
/// regions and interrupt are what the calls are about; and it has an interrupt if and only if the
/// configuration asks for one.
pub open spec fn setup_sound(step: SetupStepView, config: PlatformDeviceConfig) -> bool {
    match step {
        Step::Call((c, stage), call) => {
            &&& c == config
            &&& match call {
                SetupCallView::ResolveName => config.device_name is None,
                SetupCallView::GetDeviceFd { name } => config.device_name matches Some(given)
                    ==> name == given@,
                SetupCallView::WireIrq { spi, .. } => config.irq == Some(spi),
                _ => true,
            }
            &&& match stage {
                SetupStageView::ResolveName => config.device_name is None,
                SetupStageView::GetDeviceFd { name } => config.device_name matches Some(given)
                    ==> name == given@,
                SetupStageView::GetDeviceInfo { name } => config.device_name matches Some(given)
                    ==> name == given@,
                SetupStageView::MapRegions { name, .. } => config.device_name matches Some(given)
                    ==> name == given@,
                SetupStageView::WireIrq { name, .. } => config.irq is Some && (
                config.device_name matches Some(given) ==> name == given@),
                SetupStageView::OpenGroup => true,
            }
        },
        Step::Done(Ok(device)) => {
            &&& config.id matches Some(id) ==> device.id == id@
            &&& config.id is None ==> (config.device_name matches Some(given) ==> device.id
                == given@)
            &&& device.irq is Some <==> config.irq is Some
        },
        Step::Done(Err(_)) => true,
    }
}

/// Whatever the answers, the device that comes out is what the configuration asked for.
pub proof fn law_device_is_what_was_asked_for(
    config: PlatformDeviceConfig,
    answers: Seq<SetupAnswer>,
)
    requires
        setup_accepted(config, answers),
    ensures
        setup_sound(setup_run(config, answers), config),
{
    let fits = |state: (PlatformDeviceConfig, SetupStageView), answer: SetupAnswer|
        platform_device::setup_answers(state.0, state.1, answer);
    let inv = |step: SetupStepView| setup_sound(step, config);
    assert forall|
        state: (PlatformDeviceConfig, SetupStageView),
        call: SetupCallView,
        answer: SetupAnswer,
    |
        #![trigger inv(Step::Call(state, call)), fits(state, answer)]
        inv(Step::Call(state, call)) && fits(state, answer) implies inv(
        setup_rule()(state, answer),
    ) by {}
    step::lemma_run_keeps(setup_rule(), fits, inv, setup_start(config), answers);
}

/// The answers up to what the device has, when nothing fails. Only for a device without a configured
/// name the name is asked for; `found` is what is found then.
pub open spec fn answers_to_info(
    config: PlatformDeviceConfig,
    found: String,
    regions: Vec<VfioPlatformRegionInfo>,
    irqs: Vec<VfioPlatformIrqInfo>,
    page_size: u64,
) -> Seq<SetupAnswer> {
    let info = SetupAnswer::Info { info: Ok((regions, irqs)), page_size };
    if config.device_name is None {
        seq![
            SetupAnswer::Group(Ok(())),
            SetupAnswer::Name(Ok(found)),
            SetupAnswer::Device(Ok(())),
            info,
        ]
    } else {
        seq![SetupAnswer::Group(Ok(())), SetupAnswer::Device(Ok(())), info]
    }
}

/// The device's own name: the configured one, or the one that was found.
pub open spec fn own_name(config: PlatformDeviceConfig, found: String) -> Seq<char> {
    match config.device_name {
        Some(given) => given@,
        None => found@,
    }
}

/// When nothing fails, the device of its own name is opened; it has the regions that were mapped for
/// the plan that the configuration and the device's own regions give, and the interrupt that was
/// wired, if one was asked for.
pub proof fn law_device_is_put_together(
    config: PlatformDeviceConfig,
    found: String,
    regions: Vec<VfioPlatformRegionInfo>,
    irqs: Vec<VfioPlatformIrqInfo>,
    page_size: u64,
    seen: Vec<PlatformRegionMapping>,
    gsi: u32,
)
    ensures
        ({
            let known = answers_to_info(config, found, regions, irqs, page_size);
            let mapped = known.push(SetupAnswer::Regions(Ok(seen)));
            let wired = mapped.push(SetupAnswer::Irq(Ok(gsi)));
            let name = own_name(config, found);
            let id = platform_device::device_id(config, name);
            &&& setup_run(config, known.take(known.len() - 2)) matches Step::Call(_, c0)
            &&& c0 == SetupCallView::GetDeviceFd { name }
            &&& setup_run(config, known) matches Step::Call(_, c1)
            &&& c1 == SetupCallView::MapRegions {
                plan: region::plan_of(config.map@, regions@, page_size as int),
            }
            &&& config.irq is None ==> setup_run(config, mapped) == SetupStepView::Done(
                Ok(PlatformDeviceView { id, regions: seen@, irq: None }),
            )
            &&& config.irq matches Some(spi) ==> {
                &&& setup_run(config, mapped) matches Step::Call(_, c2)
                &&& c2 == SetupCallView::WireIrq { spi, irqs: irqs@ }
                &&& setup_run(config, wired) == SetupStepView::Done(
                    Ok(
                        PlatformDeviceView {
                            id,
                            regions: seen@,
                            irq: Some(platform_device::PlatformIrq { gsi }),
                        },
                    ),
                )
            }
        }),
{
    reveal_with_fuel(step::run, 7);
    let a = answers_to_info(config, found, regions, irqs, page_size);
    let b = a.push(SetupAnswer::Regions(Ok(seen)));
    let c = b.push(SetupAnswer::Irq(Ok(gsi)));
    let o = a.take(a.len() - 2);
    assert(a.skip(1)[0] == a[1] && a.skip(1).skip(1)[0] == a[2]);
    assert(b.skip(1)[0] == a[1] && b.skip(1).skip(1)[0] == a[2] && b.skip(1).skip(1).skip(1)[0]
        == b[3]);
    assert(c.skip(1)[0] == a[1] && c.skip(1).skip(1)[0] == a[2] && c.skip(1).skip(1).skip(1)[0]
        == b[3] && c.skip(1).skip(1).skip(1).skip(1)[0] == c[4]);
    if config.device_name is None {
        assert(o.skip(1)[0] == a[1]);
        assert(a.skip(1).skip(1).skip(1)[0] == a[3]);
        assert(b.skip(1).skip(1).skip(1).skip(1)[0] == b[4]);
        assert(c.skip(1).skip(1).skip(1).skip(1).skip(1)[0] == c[5]);
    }
}

/// From the configuration to the guest: a device whose regions were mapped, and whose interrupt was
/// wired if one was asked for, shows the guest the plan that the configuration and the device's own
/// regions give, and nothing else; and it interrupts the guest under the number that belongs to the
/// configured interrupt, or not at all.
pub proof fn law_guest_gets_what_was_configured(
    config: PlatformDeviceConfig,
    found: String,
    regions: Vec<VfioPlatformRegionInfo>,
    irqs: Vec<VfioPlatformIrqInfo>,
    page_size: u64,
    mapping: Seq<MapAnswer>,
    seen: Vec<PlatformRegionMapping>,
    wiring: Seq<IrqAnswer>,
    gsi: u32,
)
    requires
        ({
            let plan = region::plan_of(config.map@, regions@, page_size as int);
            &&& mapping::has_len(plan, 0)
            &&& map_accepted(plan, mapping)
            &&& map_run(plan, mapping) == MapStepView::Done(Ok(seen@))
        }),
        config.irq matches Some(spi) ==> irq_accepted(spi, irqs@, wiring) && irq_run(
            spi,
            irqs@,
            wiring,
        ) == IrqStepView::Done(Ok(gsi)),
    ensures
        ({
            let plan = region::plan_of(config.map@, regions@, page_size as int);
            let mapped = answers_to_info(config, found, regions, irqs, page_size).push(
                SetupAnswer::Regions(Ok(seen)),
            );
            let answers = if config.irq is Some {
                mapped.push(SetupAnswer::Irq(Ok(gsi)))
            } else {
                mapped
            };
            &&& setup_run(config, answers) matches Step::Done(Ok(device))
            &&& device.id == platform_device::device_id(config, own_name(config, found))
            &&& follows(plan, device.regions)
            &&& config.irq is None ==> device.irq is None
            &&& config.irq matches Some(spi) ==> {
                &&& device.irq == Some(platform_device::PlatformIrq { gsi })
                &&& gsi == spi + irq::SPI_BASE && 32 <= gsi < 64
            }
        }),
{
    let plan = region::plan_of(config.map@, regions@, page_size as int);
    law_guest_sees_the_plan(plan, mapping);
    if let Some(spi) = config.irq {
        law_wired_interrupt(spi, irqs@, wiring);
    }
    law_device_is_put_together(config, found, regions, irqs, page_size, seen, gsi);
}

// ---- the probe ----

/// What comes after an answer about the probe.
pub open spec fn probe_rule() -> spec_fn(ProbeState, ProbeAnswer) -> ProbeStepView {
    |state: ProbeState, answer: ProbeAnswer| probe::probe_next(state, answer)
}

/// The step after answers about the probe came in.
pub open spec fn probe_run(answers: Seq<ProbeAnswer>) -> ProbeStepView {
    step::run(
        probe_rule(),
        Step::Call(ProbeState::CoreGroup, ProbeCall::OpenGroup(ProbeDevice::Core)),
        answers,
    )
}

/// The answers are to the calls that the probe makes.
pub open spec fn probe_accepted(answers: Seq<ProbeAnswer>) -> bool {
    step::accepted(
        probe_rule(),
        |state: ProbeState, answer: ProbeAnswer| probe::probe_answers(state, answer),
        Step::Call(ProbeState::CoreGroup, ProbeCall::OpenGroup(ProbeDevice::Core)),
        answers,
    )
}

/// The probe succeeds if and only if all eight calls went through, the last of which read a version
/// that is neither zero nor all ones; it ends after eight answers at the latest.
pub proof fn law_probe(answers: Seq<ProbeAnswer>)
    requires
        probe_accepted(answers),
    ensures
        probe_run(answers) == ProbeStepView::Done(Ok(())) <==> {
            &&& answers.len() >= 8
            &&& answers[0] matches ProbeAnswer::Returned(Ok(_))
            &&& answers[1] matches ProbeAnswer::Returned(Ok(_))
            &&& answers[2] matches ProbeAnswer::Returned(Ok(_))
            &&& answers[3] matches ProbeAnswer::Returned(Ok(_))
            &&& answers[4] matches ProbeAnswer::Info(Ok(_))
            &&& answers[5] matches ProbeAnswer::Info(Ok(_))
            &&& answers[6] matches ProbeAnswer::Returned(Ok(_))
            &&& answers[7] matches ProbeAnswer::Version(version)
            &&& version != 0 && version != 0xffff_ffff
        },
        answers.len() >= 8 ==> probe_run(answers) is Done,
{
    reveal_with_fuel(step::run, 10);
    reveal_with_fuel(step::accepted, 10);
    let a1 = answers.skip(1);
    let a2 = a1.skip(1);
    let a3 = a2.skip(1);
    let a4 = a3.skip(1);
    let a5 = a4.skip(1);
    let a6 = a5.skip(1);
    let a7 = a6.skip(1);
    assert(answers.len() >= 2 ==> a1[0] == answers[1]);
    assert(answers.len() >= 3 ==> a2[0] == answers[2]);
    assert(answers.len() >= 4 ==> a3[0] == answers[3]);
    assert(answers.len() >= 5 ==> a4[0] == answers[4]);
    assert(answers.len() >= 6 ==> a5[0] == answers[5]);
    assert(answers.len() >= 7 ==> a6[0] == answers[6]);
    assert(answers.len() >= 8 ==> a7[0] == answers[7]);
}

} // verus!
