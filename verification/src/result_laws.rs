//! What comes back from single calls, whatever they are called with.

use vstd::prelude::*;
use vstd::utf8::encode_utf8;

use crate::bo::{HostBo, PageCopy};
use crate::device_info;
use crate::device_info::{
    InfoAnswer, InfoState, InfoStep, VfioPlatformIrqInfo, VfioPlatformRegionInfo,
};
use crate::group;
use crate::group::{DeviceFdCall, GroupAnswer, GroupState, GroupStep};
use crate::irq;
use crate::irq::{IrqAnswer, IrqState, IrqStep};
use crate::le;
use crate::mapping;
use crate::mapping::{
    MapAnswer, MapState, MapStep, MmapAnswer, MmapCall, MmapState, MmapStep, PlatformRegionMapping,
};
use crate::npu;
use crate::npu::{ActivateAnswer, ActivateStage, ActivateStep, EventAnswer, EventCall, EventStep, Npu};
use crate::platform_device;
use crate::platform_device::{SetupAnswer, SetupState, SetupStep, VfioPlatformDevice};
use crate::platform_error::{IoError, PlatformDeviceError};
use crate::probe;
use crate::probe::{ProbeAnswer, ProbeCall, ProbeState, ProbeStep};
use crate::queue;
use crate::queue::{Chain, Descriptor, Error, QueueAnswer, QueueState, QueueStep};
use crate::region;
use crate::region::PlannedRegion;
use crate::step::Step;
use crate::vfio::VfioIrqSet;
use crate::wire;
use crate::wire::Request;

verus! {

/// The copy of a page that starts inside of the buffer is that of the bytes from 4096 times its number
/// on, up to the next page or to where the size or the mapping ends; it is made between the guest's
/// page of that number and the buffer's mapping. Any other page's copy is empty.
pub proof fn law_page_copy_result(bo: HostBo, i: usize, copy: PageCopy)
    requires
        i < bo.gpas@.len(),
        call_ensures(HostBo::page_copy, (&bo, i), copy),
    ensures
        copy.gpa == bo.gpas@[i as int],
        copy.va == bo.va,
        4096 * i < bo.size && 4096 * i < bo.mapped ==> {
            &&& copy.offset == 4096 * i
            &&& copy.len <= 4096 && copy.offset + copy.len <= bo.size && copy.offset + copy.len
                <= bo.mapped
            &&& copy.len == 4096 || copy.offset + copy.len == bo.size || copy.offset + copy.len
                == bo.mapped
        },
        4096 * i >= bo.size || 4096 * i >= bo.mapped ==> copy.len == 0,
{
}

/// Of two pages that start inside of the buffer, the copies are as far apart in the mapping as the pages
/// are in number, and the earlier one is a whole page.
pub proof fn law_two_page_copies(bo: HostBo, i: usize, j: usize, a: PageCopy, b: PageCopy)
    requires
        i < j < bo.gpas@.len(),
        4096 * j < bo.size,
        4096 * j < bo.mapped,
        call_ensures(HostBo::page_copy, (&bo, i), a),
        call_ensures(HostBo::page_copy, (&bo, j), b),
    ensures
        b.offset - a.offset == 4096 * (j - i),
        a.len == 4096,
        b.len > 0,
{
}

/// A region of the device is mapped at its own offset, with the length that was asked for, shared.
pub proof fn law_mmap_region_result(region: VfioPlatformRegionInfo, len: u64, step: MmapStep)
    requires
        call_ensures(mapping::mmap_region, (&region, len), step),
    ensures
        step matches Step::Call(MmapState::Mmap(kept), MmapCall::Mmap(args)) && {
            &&& kept == args
            &&& region.offset < 0x8000_0000_0000_0000 ==> args.offset == region.offset
            &&& args.len == len && args.flags == 1
            &&& args.prot == (if region.flags & 1 != 0 {
                1int
            } else {
                0
            }) + (if region.flags & 2 != 0 {
                2int
            } else {
                0
            })
        },
{
}

/// The structure that sets an eventfd carries that eventfd, for that interrupt.
pub proof fn law_set_irq_eventfd_result(index: u32, action: u32, fd: i32, set: VfioIrqSet)
    requires
        call_ensures(irq::set_irq_eventfd, (index, action, fd), set),
    ensures
        fd >= 0 ==> set.eventfd == fd,
        set.index == index && set.start == 0 && set.count == 1 && set.argsz == 24,
        set.flags == 4 | action,
{
}

/// After the core has told its regions, the probe keeps the first of them, and that is the one that it
/// maps, all of it, once the memory management unit has answered.
pub proof fn law_resume_probe_result(
    core: ProbeAnswer,
    mmu: ProbeAnswer,
    state: ProbeState,
    call: ProbeCall,
    step: ProbeStep,
)
    requires
        core matches ProbeAnswer::Info(Ok(info)) && info.0@.len() > 0,
        mmu matches ProbeAnswer::Info(Ok(_)),
        call_ensures(
            probe::resume_probe,
            (ProbeState::CoreInfo, core),
            ProbeStep::Call(state, call),
        ),
        call_ensures(probe::resume_probe, (state, mmu), step),
    ensures
        step matches Step::Call(_, ProbeCall::MmapRegion { region, len }) && {
            &&& region == core->Info_0->Ok_0.0@[0]
            &&& len == core->Info_0->Ok_0.0@[0].size
        },
{
}

/// A driver's return value below zero is a failure, with the error that the driver left; any other is
/// a success, and is the descriptor where one was asked for.
pub proof fn law_driver_results(
    ret: i32,
    e: IoError,
    fd: Result<i32, PlatformDeviceError>,
    set: Result<(), PlatformDeviceError>,
)
    requires
        call_ensures(group::resume_device_fd, (ret, e), fd),
        call_ensures(irq::irq_set_result, (ret, e), set),
    ensures
        ret >= 0 ==> fd == Ok::<i32, PlatformDeviceError>(ret) && set is Ok,
        ret < 0 ==> fd == Err::<i32, PlatformDeviceError>(PlatformDeviceError::GetDeviceFd(e)),
        ret < 0 ==> set == Err::<(), PlatformDeviceError>(PlatformDeviceError::SetIrqs(e)),
{
}

/// The driver is asked for a device by the bytes of its name and one NUL behind them.
pub proof fn law_device_name_results(name: &str, arg: Option<Vec<u8>>, call: DeviceFdCall)
    requires
        call_ensures(group::device_name_arg, (name,), arg),
        !encode_utf8(name@).contains(0),
        call_ensures(group::get_device_fd, (name,), call),
    ensures
        arg matches Some(bytes) && {
            &&& bytes@.len() == encode_utf8(name@).len() + 1
            &&& bytes@.last() == 0
            &&& bytes@.drop_last() == encode_utf8(name@)
            &&& call matches DeviceFdCall::GetDeviceFd { name: given } && given@ == bytes@
        },
{
    let bytes = encode_utf8(name@);
    assert(bytes.push(0).drop_last() =~= bytes);
}

/// The queue's event comes right behind those of the event loop.
pub proof fn law_queue_avail_event_result(last: u16, event: u16)
    requires
        last < u16::MAX,
        call_ensures(npu::queue_avail_event, (last,), event),
    ensures
        event - last == 1,
{
}

/// A device's summary lists its regions one by one, and its base address is that of the first region
/// that has number 0 on the device.
pub proof fn law_device_results(
    device: VfioPlatformDevice,
    summary: Vec<(u32, u64, u64)>,
    base: Option<u64>,
    gsi: Option<u32>,
    i: int,
)
    requires
        call_ensures(VfioPlatformDevice::region_summary, (&device,), summary),
        call_ensures(VfioPlatformDevice::base_gpa, (&device,), base),
        call_ensures(VfioPlatformDevice::gsi, (&device,), gsi),
        0 <= i < device@.regions.len(),
    ensures
        summary@.len() == device@.regions.len(),
        summary@[i].0 == device@.regions[i].slot,
        summary@[i].1 == device@.regions[i].gpa,
        summary@[i].2 == device@.regions[i].size,
        device@.regions[i].index == 0 ==> base is Some,
        device@.regions[0].index == 0 ==> base == Some(device@.regions[0].gpa),
        gsi is Some <==> device@.irq is Some,
        gsi is Some ==> gsi->0 == device@.irq->0.gsi,
{
    let m: PlatformRegionMapping = device@.regions[i];
    assert(summary@[i] == (m.slot, m.gpa, m.size));
}

/// Numbers that both readings have stay what they are, and words read what was pushed.
pub proof fn law_reading_results(v: u64, r: i64, e: i32, w: u32)
    requires
        call_ensures(le::as_signed, (v,), r),
        call_ensures(le::as_unsigned, (e,), w),
    ensures
        v < 0x8000_0000_0000_0000 ==> r == v,
        v >= 0x8000_0000_0000_0000 ==> v - r == 0x1_0000_0000_0000_0000,
        e >= 0 ==> w == e,
        e < 0 ==> w - e == 0x1_0000_0000,
{
}

/// What the procedures for a device's group, for what it has, and for one mapping do next is what is
/// stated of them.
pub proof fn law_procedures_of_the_host(
    gs: GroupState,
    ga: GroupAnswer,
    g: GroupStep,
    is: InfoState,
    ia: InfoAnswer,
    i: InfoStep,
    ms: MmapState,
    ma: MmapAnswer,
    m: MmapStep,
)
    requires
        group::group_answers(gs, ga),
        call_ensures(group::resume_open_group, (gs, ga), g),
        device_info::info_answers(is@, ia),
        call_ensures(device_info::resume_device_info, (is, ia), i),
        mapping::mmap_answers(ms, ma),
        call_ensures(mapping::resume_mmap_region, (ms, ma), m),
    ensures
        g == group::group_next(gs, ga),
        device_info::info_step_view(i) == device_info::info_next(is@, ia),
        m == mapping::mmap_next(ms, ma),
{
}

/// What the procedures for all mappings, for an interrupt, for the probe and for a whole device do next
/// is what is stated of them.
pub proof fn law_procedures_of_the_device(
    ms: MapState,
    ma: MapAnswer,
    m: MapStep,
    spi: u32,
    irqs: &[VfioPlatformIrqInfo],
    first: IrqStep,
    is: IrqState,
    ia: IrqAnswer,
    i: IrqStep,
    ps: ProbeState,
    pa: ProbeAnswer,
    p: ProbeStep,
    ss: SetupState,
    sa: SetupAnswer,
    s: SetupStep,
)
    requires
        mapping::map_answers(ms@, ma),
        call_ensures(mapping::resume_map_regions, (ms, ma), m),
        call_ensures(irq::wire_irq, (spi, irqs), first),
        irq::irq_answers(is, ia),
        call_ensures(irq::resume_wire_irq, (is, ia), i),
        probe::probe_answers(ps, pa),
        call_ensures(probe::resume_probe, (ps, pa), p),
        platform_device::setup_answers(ss.config, ss.stage@, sa),
        call_ensures(VfioPlatformDevice::resume, (ss, sa), s),
    ensures
        mapping::map_step_view(m) == mapping::map_next(ms@, ma),
        irq::irq_step_view(first) == irq::irq_start(spi, irqs@),
        irq::irq_step_view(i) == irq::irq_next(is, ia),
        probe::probe_step_view(p) == probe::probe_next(ps, pa),
        platform_device::setup_step_view(s) == platform_device::setup_next(ss.config, ss.stage@, sa),
{
}

/// What the procedures for the queue, for an event and for activation do next is what is stated of
/// them.
pub proof fn law_procedures_of_the_guest<E, P, Q, M, S>(
    qs: QueueState,
    qa: QueueAnswer<Q, M>,
    q: QueueStep<Q, M>,
    data: u64,
    avail: u16,
    first: EventStep<E, P, S>,
    ec: EventCall,
    ea: EventAnswer<E, P, S>,
    e: EventStep<E, P, S>,
    npu: Npu,
    stage: ActivateStage,
    aa: ActivateAnswer<E>,
    a: ActivateStep<E>,
)
    requires
        queue::answers(qs, qa),
        call_ensures(queue::resume_queue::<Q, M>, (qs, qa), q),
        call_ensures(npu::handle_event::<E, P, S>, (data, avail), first),
        npu::event_answers(ec, ea),
        call_ensures(npu::resume_event::<E, P, S>, (ec, ea), e),
        npu::activate_answers(stage, aa),
        call_ensures(Npu::resume_activate::<E>, (&npu, stage, aa), a),
    ensures
        queue::step_view(q) == queue::queue_next(qs, qa),
        first == npu::event_start::<E, P, S>(data, avail),
        e == npu::event_next(ea),
        npu::activate_step_view(a) == npu::activate_next(npu.id@, npu.path@, stage, aa),
{
}

/// What is read from bytes, what a chain is taken for, and where regions are planned is what is stated
/// of them.
pub proof fn law_single_decisions<Q, M>(
    req: &[u8],
    decoded: Option<Request>,
    chain: Chain,
    found: Result<(Descriptor, Descriptor), Error<Q, M>>,
    map: &[u64],
    regions: &[VfioPlatformRegionInfo],
    page_size: u64,
    fits: bool,
    plan: Vec<PlannedRegion>,
)
    requires
        call_ensures(wire::decode_request, (req,), decoded),
        call_ensures(queue::chain_buffers::<Q, M>, (chain,), found),
        page_size > 0,
        call_ensures(region::layout_fits, (map, regions, page_size), fits),
        fits,
        call_ensures(region::plan_regions, (map, regions, page_size), plan),
    ensures
        decoded is None <==> wire::decode(req@) is None,
        decoded matches Some(r) ==> wire::decode(req@) == Some(r@),
        found == queue::buffers::<Q, M>(chain),
        plan@ == region::plan_of(map@, regions@, page_size as int),
{
}

} // verus!
