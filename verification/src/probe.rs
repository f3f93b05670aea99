//! A check that the NPU's core and its memory management unit can be reached.

use vstd::prelude::*;
use vstd::pervasive::unreached;

use crate::device_info::{DeviceInfo, VfioPlatformRegionInfo};
use crate::platform_error::{
    IoError, IoErrorView, PlatformDeviceError, PlatformDeviceErrorView,
};
use crate::step::Step;

verus! {

/// One of the two devices of the NPU's third core.
#[derive(Clone, Copy, Debug, PartialEq, Eq, Structural)]
pub enum ProbeDevice {
    Core,
    Mmu,
}

impl ProbeDevice {
    /// Its VFIO group.
    pub fn group_path(self) -> (r: &'static str)
        ensures
            r@ == match self {
                ProbeDevice::Core => "/dev/vfio/noiommu-15"@,
                ProbeDevice::Mmu => "/dev/vfio/noiommu-16"@,
            },
    {
        match self {
            ProbeDevice::Core => "/dev/vfio/noiommu-15",
            ProbeDevice::Mmu => "/dev/vfio/noiommu-16",
        }
    }

    /// Its name.
    pub fn device_name(self) -> (r: &'static str)
        ensures
            r@ == match self {
                ProbeDevice::Core => "fdad0000.npu"@,
                ProbeDevice::Mmu => "fdada000.iommu"@,
            },
    {
        match self {
            ProbeDevice::Core => "fdad0000.npu",
            ProbeDevice::Mmu => "fdada000.iommu",
        }
    }
}

/// Work for the probe. Each but the last is a procedure of its own.
#[derive(Clone, Copy, Debug, PartialEq, Eq, Structural)]
pub enum ProbeCall {
    /// Open the device's group.
    OpenGroup(ProbeDevice),
    /// Open the device.
    GetDeviceFd(ProbeDevice),
    /// Ask the device what it has, and report it.
    GetDeviceInfo(ProbeDevice),
    /// Map the first `len` bytes of a region of the core.
    MmapRegion { region: VfioPlatformRegionInfo, len: u64 },
    /// Read the first two words of the mapping, and report them.
    ReadVersion,
}

/// What came of a call.
#[derive(Debug)]
pub enum ProbeAnswer {
    /// Whether the group is open, the device is open, or the region is mapped.
    Returned(Result<(), PlatformDeviceError>),
    /// What the device has.
    Info(Result<DeviceInfo, PlatformDeviceError>),
    /// The first word, `REG_PC_VERSION`.
    Version(u32),
}

/// The call that is outstanding. Behind the core's regions its region 0 is kept.
#[derive(Clone, Copy, Debug, PartialEq, Eq, Structural)]
pub enum ProbeState {
    CoreGroup,
    CoreDevice,
    MmuGroup,
    MmuDevice,
    CoreInfo,
    MmuInfo { region0: Option<VfioPlatformRegionInfo> },
    MmapRegion,
    ReadVersion,
}

/// What to do next, or whether the NPU answers.
pub type ProbeStep = Step<ProbeState, ProbeCall, Result<(), PlatformDeviceError>>;

/// What a `ProbeStep` says.
pub type ProbeStepView = Step<ProbeState, ProbeCall, Result<(), PlatformDeviceErrorView>>;

/// What a `ProbeStep` says.
pub open spec fn probe_step_view(step: ProbeStep) -> ProbeStepView {
    match step {
        Step::Call(state, call) => Step::Call(state, call),
        Step::Done(Ok(_)) => Step::Done(Ok(())),
        Step::Done(Err(e)) => Step::Done(Err(e@)),
    }
}

/// The answer is to the call that is outstanding, and when both devices have answered the core has
/// a region.
pub open spec fn probe_answers(state: ProbeState, answer: ProbeAnswer) -> bool {
    match state {
        ProbeState::CoreInfo => answer is Info,
        ProbeState::MmuInfo { region0 } => answer is Info && (answer->Info_0 is Ok
            ==> region0 is Some),
        ProbeState::ReadVersion => answer is Version,
        _ => answer is Returned,
    }
}

/// The version register holds the NPU's signature: neither zero, as when it is off, nor all ones,
/// as when the bus fails.
pub open spec fn version_valid(version: u32) -> bool {
    version != 0 && version != 0xffff_ffff
}

/// The first region.
pub open spec fn first_region(regions: Seq<VfioPlatformRegionInfo>) -> Option<
    VfioPlatformRegionInfo,
> {
    if regions.len() > 0 {
        Some(regions[0])
    } else {
        None
    }
}

/// What to do after an answer came in.
pub open spec fn probe_next(state: ProbeState, answer: ProbeAnswer) -> ProbeStepView {
    match (state, answer) {
        (_, ProbeAnswer::Returned(Err(e))) => Step::Done(Err(e@)),
        (_, ProbeAnswer::Info(Err(e))) => Step::Done(Err(e@)),
        (ProbeState::CoreGroup, _) => Step::Call(
            ProbeState::CoreDevice,
            ProbeCall::GetDeviceFd(ProbeDevice::Core),
        ),
        (ProbeState::CoreDevice, _) => Step::Call(
            ProbeState::MmuGroup,
            ProbeCall::OpenGroup(ProbeDevice::Mmu),
        ),
        (ProbeState::MmuGroup, _) => Step::Call(
            ProbeState::MmuDevice,
            ProbeCall::GetDeviceFd(ProbeDevice::Mmu),
        ),
        (ProbeState::MmuDevice, _) => Step::Call(
            ProbeState::CoreInfo,
            ProbeCall::GetDeviceInfo(ProbeDevice::Core),
        ),
        (ProbeState::CoreInfo, ProbeAnswer::Info(Ok((regions, _)))) => Step::Call(
            ProbeState::MmuInfo { region0: first_region(regions@) },
            ProbeCall::GetDeviceInfo(ProbeDevice::Mmu),
        ),
        (ProbeState::MmuInfo { region0: Some(region) }, _) => Step::Call(
            ProbeState::MmapRegion,
            ProbeCall::MmapRegion { region, len: region.size },
        ),
        (ProbeState::MmapRegion, _) => Step::Call(ProbeState::ReadVersion, ProbeCall::ReadVersion),
        (ProbeState::ReadVersion, ProbeAnswer::Version(version)) => if version_valid(version) {
            Step::Done(Ok(()))
        } else {
            Step::Done(
                Err(
                    PlatformDeviceErrorView::MmapRegion(
                        IoErrorView::Other("invalid REG_PC_VERSION value"@),
                    ),
                ),
            )
        },
        _ => arbitrary(),
    }
}

/// Starts the probe.
pub fn rknn_probe() -> (step: ProbeStep)
    ensures
        step == ProbeStep::Call(ProbeState::CoreGroup, ProbeCall::OpenGroup(ProbeDevice::Core)),
{
    Step::Call(ProbeState::CoreGroup, ProbeCall::OpenGroup(ProbeDevice::Core))
}

/// Goes on with the probe.
pub fn resume_probe(state: ProbeState, answer: ProbeAnswer) -> (step: ProbeStep)
    requires
        probe_answers(state, answer),
    ensures
        probe_step_view(step) == probe_next(state, answer),
        state is CoreInfo ==> (answer matches ProbeAnswer::Info(Ok((regions, _))) ==> regions@.len()
            > 0 ==> (step matches Step::Call(ProbeState::MmuInfo { region0 }, _) && region0 == Some(
            regions@[0],
        ))),
{
    match (state, answer) {
        (_, ProbeAnswer::Returned(Err(e))) => Step::Done(Err(e)),
        (_, ProbeAnswer::Info(Err(e))) => Step::Done(Err(e)),
        (ProbeState::CoreGroup, _) => Step::Call(
            ProbeState::CoreDevice,
            ProbeCall::GetDeviceFd(ProbeDevice::Core),
        ),
        (ProbeState::CoreDevice, _) => Step::Call(
            ProbeState::MmuGroup,
            ProbeCall::OpenGroup(ProbeDevice::Mmu),
        ),
        (ProbeState::MmuGroup, _) => Step::Call(
            ProbeState::MmuDevice,
            ProbeCall::GetDeviceFd(ProbeDevice::Mmu),
        ),
        (ProbeState::MmuDevice, _) => Step::Call(
            ProbeState::CoreInfo,
            ProbeCall::GetDeviceInfo(ProbeDevice::Core),
        ),
        (ProbeState::CoreInfo, ProbeAnswer::Info(Ok((regions, _)))) => {
            let region0: Option<VfioPlatformRegionInfo> = if regions.len() > 0 {
                Some(regions[0])
            } else {
                None
            };
            Step::Call(
                ProbeState::MmuInfo { region0 },
                ProbeCall::GetDeviceInfo(ProbeDevice::Mmu),
            )
        },
        (ProbeState::MmuInfo { region0: Some(region) }, _) => Step::Call(
            ProbeState::MmapRegion,
            ProbeCall::MmapRegion { region, len: region.size },
        ),
        (ProbeState::MmapRegion, _) => Step::Call(ProbeState::ReadVersion, ProbeCall::ReadVersion),
        (ProbeState::ReadVersion, ProbeAnswer::Version(version)) => if version == 0 || version
            == 0xffff_ffff {
            Step::Done(
                Err(
                    PlatformDeviceError::MmapRegion(IoError::other("invalid REG_PC_VERSION value")),
                ),
            )
        } else {
            Step::Done(Ok(()))
        },
        _ => unreached(),
    }
}

} // verus!
