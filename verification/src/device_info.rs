//! Asking a VFIO device what regions and interrupts it has.

use vstd::prelude::*;
use vstd::pervasive::unreached;

use crate::platform_error::{IoError, PlatformDeviceError};
use crate::step::Step;
use crate::vfio::{
    VfioDeviceInfo, VfioIrqInfo, VfioRegionInfo, DEVICE_INFO_SIZE, IRQ_INFO_SIZE, REGION_INFO_SIZE,
};

verus! {

/// A region of a device.
#[derive(Clone, Copy, Debug, PartialEq, Eq, Structural)]
pub struct VfioPlatformRegionInfo {
    pub index: u32,
    pub flags: u32,
    pub size: u64,
    pub offset: u64,
}

/// An interrupt of a device.
#[derive(Clone, Copy, Debug, PartialEq, Eq, Structural)]
pub struct VfioPlatformIrqInfo {
    pub index: u32,
    pub flags: u32,
    pub count: u32,
}

/// A question to the device.
#[derive(Clone, Copy, Debug, PartialEq, Eq, Structural)]
pub enum InfoCall {
    Device(VfioDeviceInfo),
    Region(VfioRegionInfo),
    Irq(VfioIrqInfo),
}

/// What the driver returned and left in the structure that it got; `last_error` is the error of a
/// call that failed.
#[derive(Debug)]
pub enum InfoAnswer {
    Device { ret: i32, num_regions: u32, num_irqs: u32, last_error: IoError },
    Region { ret: i32, flags: u32, size: u64, offset: u64, last_error: IoError },
    Irq { ret: i32, flags: u32, count: u32, last_error: IoError },
}

/// Where asking stands: what the device has said it has, and what has been asked. The regions are
/// asked first.
#[derive(Debug)]
pub enum InfoState {
    Device,
    Region { num_regions: u32, num_irqs: u32, regions: Vec<VfioPlatformRegionInfo> },
    Irq { num_irqs: u32, regions: Vec<VfioPlatformRegionInfo>, irqs: Vec<VfioPlatformIrqInfo> },
}

/// What an `InfoState` says.
pub ghost enum InfoStateView {
    Device,
    Region { num_regions: u32, num_irqs: u32, regions: Seq<VfioPlatformRegionInfo> },
    Irq { num_irqs: u32, regions: Seq<VfioPlatformRegionInfo>, irqs: Seq<VfioPlatformIrqInfo> },
}

impl View for InfoState {
    type V = InfoStateView;

    open spec fn view(&self) -> InfoStateView {
        match *self {
            InfoState::Device => InfoStateView::Device,
            InfoState::Region { num_regions, num_irqs, regions } => InfoStateView::Region {
                num_regions,
                num_irqs,
                regions: regions@,
            },
            InfoState::Irq { num_irqs, regions, irqs } => InfoStateView::Irq {
                num_irqs,
                regions: regions@,
                irqs: irqs@,
            },
        }
    }
}

/// What a device has.
pub type DeviceInfo = (Vec<VfioPlatformRegionInfo>, Vec<VfioPlatformIrqInfo>);

/// What to do next, or what the device has.
pub type InfoStep = Step<InfoState, InfoCall, Result<DeviceInfo, PlatformDeviceError>>;

/// What an `InfoStep` says.
pub type InfoStepView = Step<
    InfoStateView,
    InfoCall,
    Result<(Seq<VfioPlatformRegionInfo>, Seq<VfioPlatformIrqInfo>), PlatformDeviceError>,
>;

/// What an `InfoStep` says.
pub open spec fn info_step_view(step: InfoStep) -> InfoStepView {
    match step {
        Step::Call(state, call) => Step::Call(state@, call),
        Step::Done(Ok((regions, irqs))) => Step::Done(Ok((regions@, irqs@))),
        Step::Done(Err(e)) => Step::Done(Err(e)),
    }
}

/// The answer is to the question that is outstanding, and there is still something to ask.
pub open spec fn info_answers(state: InfoStateView, answer: InfoAnswer) -> bool {
    match state {
        InfoStateView::Device => answer is Device,
        InfoStateView::Region { num_regions, regions, .. } => answer is Region && regions.len()
            < num_regions,
        InfoStateView::Irq { num_irqs, irqs, .. } => answer is Irq && irqs.len() < num_irqs,
    }
}

/// The question about a region.
pub open spec fn region_question(index: u32) -> InfoCall {
    InfoCall::Region(
        VfioRegionInfo {
            argsz: REGION_INFO_SIZE,
            flags: 0,
            index,
            cap_offset: 0,
            size: 0,
            offset: 0,
        },
    )
}

/// The question about an interrupt.
pub open spec fn irq_question(index: u32) -> InfoCall {
    InfoCall::Irq(VfioIrqInfo { argsz: IRQ_INFO_SIZE, flags: 0, index, count: 0 })
}

/// Goes on with the next region, or with the interrupts.
pub open spec fn ask_regions(
    num_regions: u32,
    num_irqs: u32,
    regions: Seq<VfioPlatformRegionInfo>,
) -> InfoStepView {
    if regions.len() < num_regions {
        Step::Call(
            InfoStateView::Region { num_regions, num_irqs, regions },
            region_question(regions.len() as u32),
        )
    } else {
        ask_irqs(num_irqs, regions, Seq::empty())
    }
}

/// Goes on with the next interrupt, or ends.
pub open spec fn ask_irqs(
    num_irqs: u32,
    regions: Seq<VfioPlatformRegionInfo>,
    irqs: Seq<VfioPlatformIrqInfo>,
) -> InfoStepView {
    if irqs.len() < num_irqs {
        Step::Call(
            InfoStateView::Irq { num_irqs, regions, irqs },
            irq_question(irqs.len() as u32),
        )
    } else {
        Step::Done(Ok((regions, irqs)))
    }
}

/// What to do after an answer came in.
pub open spec fn info_next(state: InfoStateView, answer: InfoAnswer) -> InfoStepView {
    match (state, answer) {
        (
            InfoStateView::Device,
            InfoAnswer::Device { ret, num_regions, num_irqs, last_error },
        ) => if ret < 0 {
            Step::Done(Err(PlatformDeviceError::GetDeviceInfo(last_error)))
        } else {
            ask_regions(num_regions, num_irqs, Seq::empty())
        },
        (
            InfoStateView::Region { num_regions, num_irqs, regions },
            InfoAnswer::Region { ret, flags, size, offset, last_error },
        ) => if ret < 0 {
            Step::Done(Err(PlatformDeviceError::GetRegionInfo(last_error)))
        } else {
            let index = regions.len() as u32;
            ask_regions(
                num_regions,
                num_irqs,
                regions.push(VfioPlatformRegionInfo { index, flags, size, offset }),
            )
        },
        (
            InfoStateView::Irq { num_irqs, regions, irqs },
            InfoAnswer::Irq { ret, flags, count, last_error },
        ) => if ret < 0 {
            Step::Done(Err(PlatformDeviceError::GetIrqInfo(last_error)))
        } else {
            let index = irqs.len() as u32;
            ask_irqs(num_irqs, regions, irqs.push(VfioPlatformIrqInfo { index, flags, count }))
        },
        _ => arbitrary(),
    }
}

/// Asks about the next region, or goes over to the interrupts.
fn next_region(num_regions: u32, num_irqs: u32, regions: Vec<VfioPlatformRegionInfo>) -> (step:
    InfoStep)
    requires
        regions@.len() <= num_regions,
    ensures
        info_step_view(step) == ask_regions(num_regions, num_irqs, regions@),
{
    if regions.len() < num_regions as usize {
        let args = VfioRegionInfo {
            argsz: REGION_INFO_SIZE,
            flags: 0,
            index: regions.len() as u32,
            cap_offset: 0,
            size: 0,
            offset: 0,
        };
        Step::Call(InfoState::Region { num_regions, num_irqs, regions }, InfoCall::Region(args))
    } else {
        next_irq(num_irqs, regions, Vec::new())
    }
}

/// Asks about the next interrupt, or ends.
fn next_irq(
    num_irqs: u32,
    regions: Vec<VfioPlatformRegionInfo>,
    irqs: Vec<VfioPlatformIrqInfo>,
) -> (step: InfoStep)
    requires
        irqs@.len() <= num_irqs,
    ensures
        info_step_view(step) == ask_irqs(num_irqs, regions@, irqs@),
{
    if irqs.len() < num_irqs as usize {
        let args = VfioIrqInfo {
            argsz: IRQ_INFO_SIZE,
            flags: 0,
            index: irqs.len() as u32,
            count: 0,
        };
        Step::Call(InfoState::Irq { num_irqs, regions, irqs }, InfoCall::Irq(args))
    } else {
        Step::Done(Ok((regions, irqs)))
    }
}

/// Starts to ask a device what it has.
pub fn get_device_info() -> (step: InfoStep)
    ensures
        info_step_view(step) == InfoStepView::Call(
            InfoStateView::Device,
            InfoCall::Device(
                VfioDeviceInfo {
                    argsz: DEVICE_INFO_SIZE,
                    flags: 0,
                    num_regions: 0,
                    num_irqs: 0,
                    cap_offset: 0,
                    pad: 0,
                },
            ),
        ),
{
    let args = VfioDeviceInfo {
        argsz: DEVICE_INFO_SIZE,
        flags: 0,
        num_regions: 0,
        num_irqs: 0,
        cap_offset: 0,
        pad: 0,
    };
    Step::Call(InfoState::Device, InfoCall::Device(args))
}

/// Goes on asking.
pub fn resume_device_info(state: InfoState, answer: InfoAnswer) -> (step: InfoStep)
    requires
        info_answers(state@, answer),
    ensures
        info_step_view(step) == info_next(state@, answer),
{
    match (state, answer) {
        (InfoState::Device, InfoAnswer::Device { ret, num_regions, num_irqs, last_error }) => if ret
            < 0 {
            Step::Done(Err(PlatformDeviceError::GetDeviceInfo(last_error)))
        } else {
            next_region(num_regions, num_irqs, Vec::new())
        },
        (
            InfoState::Region { num_regions, num_irqs, regions },
            InfoAnswer::Region { ret, flags, size, offset, last_error },
        ) => if ret < 0 {
            Step::Done(Err(PlatformDeviceError::GetRegionInfo(last_error)))
        } else {
            let index: u32 = regions.len() as u32;
            let mut regions = regions;
            regions.push(VfioPlatformRegionInfo { index, flags, size, offset });
            next_region(num_regions, num_irqs, regions)
        },
        (
            InfoState::Irq { num_irqs, regions, irqs },
            InfoAnswer::Irq { ret, flags, count, last_error },
        ) => if ret < 0 {
            Step::Done(Err(PlatformDeviceError::GetIrqInfo(last_error)))
        } else {
            let index: u32 = irqs.len() as u32;
            let mut irqs = irqs;
            irqs.push(VfioPlatformIrqInfo { index, flags, count });
            next_irq(num_irqs, regions, irqs)
        },
        _ => unreached(),
    }
}

/// The regions are numbered from zero.
pub open spec fn regions_numbered(regions: Seq<VfioPlatformRegionInfo>) -> bool {
    forall|i: int| 0 <= i < regions.len() ==> (#[trigger] regions[i]).index == i
}

/// The interrupts are numbered from zero.
pub open spec fn irqs_numbered(irqs: Seq<VfioPlatformIrqInfo>) -> bool {
    forall|i: int| 0 <= i < irqs.len() ==> (#[trigger] irqs[i]).index == i
}

/// Nothing has been asked twice or left out, in a device that has `r` regions and `q` interrupts.
pub open spec fn asked_in_order(step: InfoStepView, r: u32, q: u32) -> bool {
    match step {
        Step::Call(InfoStateView::Device, _) => false,
        Step::Call(InfoStateView::Region { num_regions, num_irqs, regions }, call) => {
            &&& num_regions == r && num_irqs == q
            &&& regions.len() < r
            &&& regions_numbered(regions)
            &&& call == region_question(regions.len() as u32)
        },
        Step::Call(InfoStateView::Irq { num_irqs, regions, irqs }, call) => {
            &&& num_irqs == q
            &&& regions.len() == r && irqs.len() < q
            &&& regions_numbered(regions) && irqs_numbered(irqs)
            &&& call == irq_question(irqs.len() as u32)
        },
        Step::Done(Ok((regions, irqs))) => {
            &&& regions.len() == r && irqs.len() == q
            &&& regions_numbered(regions) && irqs_numbered(irqs)
        },
        Step::Done(Err(_)) => true,
    }
}

/// Once the device has said what it has, every region and every interrupt is asked for once, in
/// order, and what comes out holds as many as the device said, each under its own number.
pub proof fn law_everything_asked_once(
    state: InfoStateView,
    call: InfoCall,
    answer: InfoAnswer,
    r: u32,
    q: u32,
)
    requires
        info_answers(state, answer),
        match state {
            InfoStateView::Device => answer matches InfoAnswer::Device {
                num_regions,
                num_irqs,
                ..
            } && num_regions == r && num_irqs == q,
            _ => asked_in_order(Step::Call(state, call), r, q),
        },
    ensures
        asked_in_order(info_next(state, answer), r, q),
{
}

} // verus!
