//! Wiring a device's interrupt to the guest.
//!
//! The device's interrupt signals one eventfd, which the hypervisor turns into an interrupt of the
//! guest; when the guest is done, the hypervisor signals another one, which unmasks the device's
//! interrupt.

use vstd::prelude::*;
use vstd::pervasive::unreached;

use crate::device_info::VfioPlatformIrqInfo;
use crate::le;
use crate::platform_error::{
    HypervisorVmError, IoError, IoErrorView, PlatformDeviceError, PlatformDeviceErrorView,
};
use crate::step::Step;
use crate::text;
use crate::vfio::{
    VfioIrqSet, IRQ_SET_SIZE, VFIO_IRQ_INFO_EVENTFD, VFIO_IRQ_SET_ACTION_TRIGGER,
    VFIO_IRQ_SET_ACTION_UNMASK, VFIO_IRQ_SET_DATA_EVENTFD,
};

verus! {

/// The interrupt of a platform device that is wired.
pub const VFIO_PLATFORM_IRQ_INDEX: u32 = 0;

/// The first shared interrupt of the guest has this number; the hypervisor routes this many.
pub const SPI_BASE: u32 = 32;

/// Reading from the eventfd does not block.
pub const EFD_NONBLOCK: i32 = 0x800;

/// The structure that sets an interrupt's eventfd.
pub open spec fn irq_set(index: u32, action: u32, fd: i32) -> VfioIrqSet {
    VfioIrqSet {
        argsz: (IRQ_SET_SIZE + 4) as u32,
        flags: VFIO_IRQ_SET_DATA_EVENTFD | action,
        index,
        start: 0,
        count: 1,
        eventfd: le::unsigned(fd),
    }
}

/// Puts the structure together that sets an interrupt's eventfd.
pub fn set_irq_eventfd(irq_index: u32, action: u32, fd: i32) -> (set: VfioIrqSet)
    ensures
        set == irq_set(irq_index, action, fd),
        fd >= 0 ==> set.eventfd == fd,
        set.index == irq_index,
{
    VfioIrqSet {
        argsz: IRQ_SET_SIZE + 4,
        flags: VFIO_IRQ_SET_DATA_EVENTFD | action,
        index: irq_index,
        start: 0,
        count: 1,
        eventfd: le::as_unsigned(fd),
    }
}

/// Takes what the driver returned for the request to set an eventfd.
pub fn irq_set_result(ret: i32, last_error: IoError) -> (r: Result<(), PlatformDeviceError>)
    ensures
        r == if ret < 0 {
            Err(PlatformDeviceError::SetIrqs(last_error))
        } else {
            Ok(())
        },
{
    if ret < 0 {
        Err(PlatformDeviceError::SetIrqs(last_error))
    } else {
        Ok(())
    }
}

/// Work for wiring an interrupt.
#[derive(Clone, Copy, Debug, PartialEq, Eq, Structural)]
pub enum IrqCall {
    /// Make the eventfd that the device's interrupt signals.
    CreateTrigger { flags: i32 },
    /// Make the eventfd that unmasks the device's interrupt.
    CreateResample { flags: i32 },
    /// Set the interrupt's action.
    SetIrqs(VfioIrqSet),
    /// Have the hypervisor turn the eventfd `trigger` into the guest's interrupt `gsi`, and signal the
    /// eventfd `resample` when the guest is done with it.
    Register { trigger: i32, resample: i32, gsi: u32 },
}

/// What came of a call.
#[derive(Debug)]
pub enum IrqAnswer {
    /// The eventfd's descriptor.
    EventFd(Result<i32, IoError>),
    /// The driver returned `ret`; `last_error` is the error of a call that failed.
    Returned { ret: i32, last_error: IoError },
    /// Whether the hypervisor took it.
    Registered(Result<(), HypervisorVmError>),
}

/// Where wiring the guest's shared interrupt `spi` to the device's interrupt `index` stands.
#[derive(Clone, Copy, Debug, PartialEq, Eq, Structural)]
pub enum IrqState {
    CreateTrigger { spi: u32, index: u32 },
    CreateResample { spi: u32, index: u32, trigger: i32 },
    SetTrigger { spi: u32, index: u32, trigger: i32, resample: i32 },
    SetUnmask { spi: u32, trigger: i32, resample: i32 },
    Register { gsi: u32 },
}

/// What to do next, or the guest's interrupt.
pub type IrqStep = Step<IrqState, IrqCall, Result<u32, PlatformDeviceError>>;

/// What an `IrqStep` says.
pub type IrqStepView = Step<IrqState, IrqCall, Result<u32, PlatformDeviceErrorView>>;

/// What an `IrqStep` says.
pub open spec fn irq_step_view(step: IrqStep) -> IrqStepView {
    match step {
        Step::Call(state, call) => Step::Call(state, call),
        Step::Done(Ok(gsi)) => Step::Done(Ok(gsi)),
        Step::Done(Err(e)) => Step::Done(Err(e@)),
    }
}

/// The answer is to the call that is outstanding.
pub open spec fn irq_answers(state: IrqState, answer: IrqAnswer) -> bool {
    match state {
        IrqState::CreateTrigger { .. } => answer is EventFd,
        IrqState::CreateResample { .. } => answer is EventFd,
        IrqState::SetTrigger { .. } => answer is Returned,
        IrqState::SetUnmask { .. } => answer is Returned,
        IrqState::Register { .. } => answer is Registered,
    }
}

/// The first interrupt with that number.
pub open spec fn find_irq(irqs: Seq<VfioPlatformIrqInfo>, index: u32) -> Option<VfioPlatformIrqInfo>
    decreases irqs.len(),
{
    if irqs.len() == 0 {
        None
    } else if irqs[0].index == index {
        Some(irqs[0])
    } else {
        find_irq(irqs.skip(1), index)
    }
}

/// Why an interrupt that the hypervisor does not route is refused.
pub open spec fn range_text(spi: u32) -> Seq<char> {
    "platform device IRQ must be a legacy-range SPI (0..31), got "@ + text::decimal(spi as nat)
}

/// What to do first.
pub open spec fn irq_start(spi: u32, irqs: Seq<VfioPlatformIrqInfo>) -> IrqStepView {
    match find_irq(irqs, VFIO_PLATFORM_IRQ_INDEX) {
        None => Step::Done(
            Err(
                PlatformDeviceErrorView::GetIrqInfo(
                    IoErrorView::Other("platform device has no IRQ index 0"@),
                ),
            ),
        ),
        Some(irq) => if irq.flags & VFIO_IRQ_INFO_EVENTFD == 0 {
            Step::Done(
                Err(
                    PlatformDeviceErrorView::SetIrqs(
                        IoErrorView::Other(
                            "platform device IRQ does not support eventfd signaling"@,
                        ),
                    ),
                ),
            )
        } else {
            Step::Call(
                IrqState::CreateTrigger { spi, index: irq.index },
                IrqCall::CreateTrigger { flags: EFD_NONBLOCK },
            )
        },
    }
}

/// What to do after an answer came in.
pub open spec fn irq_next(state: IrqState, answer: IrqAnswer) -> IrqStepView {
    match (state, answer) {
        (IrqState::CreateTrigger { spi, index }, IrqAnswer::EventFd(Ok(trigger))) => Step::Call(
            IrqState::CreateResample { spi, index, trigger },
            IrqCall::CreateResample { flags: EFD_NONBLOCK },
        ),
        (IrqState::CreateResample { spi, index, trigger }, IrqAnswer::EventFd(Ok(resample))) =>
            Step::Call(
            IrqState::SetTrigger { spi, index, trigger, resample },
            IrqCall::SetIrqs(irq_set(index, VFIO_IRQ_SET_ACTION_TRIGGER, trigger)),
        ),
        (_, IrqAnswer::EventFd(Err(e))) => Step::Done(
            Err(PlatformDeviceErrorView::CreateEventFd(e@)),
        ),
        (
            IrqState::SetTrigger { spi, index, trigger, resample },
            IrqAnswer::Returned { ret, last_error },
        ) => if ret < 0 {
            Step::Done(Err(PlatformDeviceErrorView::SetIrqs(last_error@)))
        } else {
            Step::Call(
                IrqState::SetUnmask { spi, trigger, resample },
                IrqCall::SetIrqs(irq_set(index, VFIO_IRQ_SET_ACTION_UNMASK, resample)),
            )
        },
        (
            IrqState::SetUnmask { spi, trigger, resample },
            IrqAnswer::Returned { ret, last_error },
        ) => if ret < 0 {
            Step::Done(Err(PlatformDeviceErrorView::SetIrqs(last_error@)))
        } else if spi >= SPI_BASE {
            Step::Done(Err(PlatformDeviceErrorView::SetIrqs(IoErrorView::Other(range_text(spi)))))
        } else {
            let gsi = (spi + SPI_BASE) as u32;
            Step::Call(IrqState::Register { gsi }, IrqCall::Register { trigger, resample, gsi })
        },
        (IrqState::Register { gsi }, IrqAnswer::Registered(Ok(_))) => Step::Done(Ok(gsi)),
        (IrqState::Register { .. }, IrqAnswer::Registered(Err(e))) => Step::Done(
            Err(PlatformDeviceErrorView::RegisterIrqfd(e.text@)),
        ),
        _ => arbitrary(),
    }
}

/// Finds the interrupt with that number.
fn find(irqs: &[VfioPlatformIrqInfo], index: u32) -> (r: Option<VfioPlatformIrqInfo>)
    ensures
        r == find_irq(irqs@, index),
{
    let mut i: usize = 0;
    assert(irqs@.skip(0) =~= irqs@);
    while i < irqs.len()
        invariant
            i <= irqs@.len(),
            find_irq(irqs@, index) == find_irq(irqs@.skip(i as int), index),
        decreases irqs.len() - i,
    {
        assert(irqs@.skip(i as int)[0] == irqs@[i as int]);
        assert(irqs@.skip(i as int).skip(1) =~= irqs@.skip(i + 1));
        if irqs[i].index == index {
            return Some(irqs[i]);
        }
        i = i + 1;
    }
    None
}

/// Starts to wire the guest's shared interrupt `spi`.
pub fn wire_irq(spi: u32, irqs: &[VfioPlatformIrqInfo]) -> (step: IrqStep)
    ensures
        irq_step_view(step) == irq_start(spi, irqs@),
{
    let irq: VfioPlatformIrqInfo = match find(irqs, VFIO_PLATFORM_IRQ_INDEX) {
        Some(irq) => irq,
        None => {
            return Step::Done(
                Err(
                    PlatformDeviceError::GetIrqInfo(
                        IoError::other("platform device has no IRQ index 0"),
                    ),
                ),
            );
        },
    };
    if irq.flags & VFIO_IRQ_INFO_EVENTFD == 0 {
        return Step::Done(
            Err(
                PlatformDeviceError::SetIrqs(
                    IoError::other("platform device IRQ does not support eventfd signaling"),
                ),
            ),
        );
    }
    Step::Call(
        IrqState::CreateTrigger { spi, index: irq.index },
        IrqCall::CreateTrigger { flags: EFD_NONBLOCK },
    )
}

/// Goes on wiring an interrupt.
pub fn resume_wire_irq(state: IrqState, answer: IrqAnswer) -> (step: IrqStep)
    requires
        irq_answers(state, answer),
    ensures
        irq_step_view(step) == irq_next(state, answer),
{
    match (state, answer) {
        (IrqState::CreateTrigger { spi, index }, IrqAnswer::EventFd(Ok(trigger))) => Step::Call(
            IrqState::CreateResample { spi, index, trigger },
            IrqCall::CreateResample { flags: EFD_NONBLOCK },
        ),
        (IrqState::CreateResample { spi, index, trigger }, IrqAnswer::EventFd(Ok(resample))) => {
            let set = set_irq_eventfd(index, VFIO_IRQ_SET_ACTION_TRIGGER, trigger);
            Step::Call(IrqState::SetTrigger { spi, index, trigger, resample }, IrqCall::SetIrqs(set))
        },
        (_, IrqAnswer::EventFd(Err(e))) => Step::Done(Err(PlatformDeviceError::CreateEventFd(e))),
        (
            IrqState::SetTrigger { spi, index, trigger, resample },
            IrqAnswer::Returned { ret, last_error },
        ) => {
            match irq_set_result(ret, last_error) {
                Err(e) => Step::Done(Err(e)),
                Ok(_) => {
                    let set = set_irq_eventfd(index, VFIO_IRQ_SET_ACTION_UNMASK, resample);
                    Step::Call(IrqState::SetUnmask { spi, trigger, resample }, IrqCall::SetIrqs(set))
                },
            }
        },
        (IrqState::SetUnmask { spi, trigger, resample }, IrqAnswer::Returned { ret, last_error }) => {
            match irq_set_result(ret, last_error) {
                Err(e) => Step::Done(Err(e)),
                Ok(_) => if spi >= SPI_BASE {
                    let mut why: String =
                        "platform device IRQ must be a legacy-range SPI (0..31), got ".to_owned();
                    text::push_decimal(&mut why, spi);
                    Step::Done(Err(PlatformDeviceError::SetIrqs(IoError::Other(why))))
                } else {
                    let gsi: u32 = spi + SPI_BASE;
                    Step::Call(IrqState::Register { gsi }, IrqCall::Register { trigger, resample, gsi })
                },
            }
        },
        (IrqState::Register { gsi }, IrqAnswer::Registered(Ok(_))) => Step::Done(Ok(gsi)),
        (IrqState::Register { .. }, IrqAnswer::Registered(Err(e))) => Step::Done(
            Err(PlatformDeviceError::RegisterIrqfd(e)),
        ),
        _ => unreached(),
    }
}

} // verus!
