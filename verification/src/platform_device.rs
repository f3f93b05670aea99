//! Setting a VFIO platform device up for the guest.

use vstd::prelude::*;
use vstd::pervasive::unreached;

use crate::device_info::{DeviceInfo, VfioPlatformIrqInfo};
use crate::mapping::PlatformRegionMapping;
use crate::path::HostPath;
use crate::platform_error::PlatformDeviceError;
use crate::region;
use crate::region::PlannedRegion;
use crate::step::Step;

verus! {

/// What the user says about a platform device.
#[derive(Debug)]
pub struct PlatformDeviceConfig {
    /// What to call it; its own name if this is not given.
    pub id: Option<String>,
    /// Its VFIO group.
    pub group: HostPath,
    /// Its name in the group; the only device of the group if this is not given.
    pub device_name: Option<String>,
    /// Where its regions go in the guest: an address for each, or a single one.
    pub map: Vec<u64>,
    /// The guest's shared interrupt for it.
    pub irq: Option<u32>,
}

/// The guest's interrupt of a device.
#[derive(Clone, Copy, Debug, PartialEq, Eq, Structural)]
pub struct PlatformIrq {
    pub gsi: u32,
}

/// A VFIO platform device in the guest's address space.
#[derive(Debug)]
pub struct VfioPlatformDevice {
    id: String,
    regions: Vec<PlatformRegionMapping>,
    irq: Option<PlatformIrq>,
}

/// What a `VfioPlatformDevice` says.
#[verifier::ext_equal]
pub ghost struct PlatformDeviceView {
    pub id: Seq<char>,
    pub regions: Seq<PlatformRegionMapping>,
    pub irq: Option<PlatformIrq>,
}

impl View for VfioPlatformDevice {
    type V = PlatformDeviceView;

    closed spec fn view(&self) -> PlatformDeviceView {
        PlatformDeviceView { id: self.id@, regions: self.regions@, irq: self.irq }
    }
}

/// Work for setting a device up. Each is a procedure of its own.
#[derive(Debug)]
pub enum SetupCall {
    /// Open the device's group.
    OpenGroup,
    /// Find out the name of the only device in the group.
    ResolveName,
    /// Open the device of that name.
    GetDeviceFd { name: String },
    /// Ask the device what it has.
    GetDeviceInfo,
    /// Map regions into the guest.
    MapRegions { plan: Vec<PlannedRegion> },
    /// Wire the guest's shared interrupt `spi` to one of the device's interrupts.
    WireIrq { spi: u32, irqs: Vec<VfioPlatformIrqInfo> },
}

/// What a `SetupCall` says.
pub ghost enum SetupCallView {
    OpenGroup,
    ResolveName,
    GetDeviceFd { name: Seq<char> },
    GetDeviceInfo,
    MapRegions { plan: Seq<PlannedRegion> },
    WireIrq { spi: u32, irqs: Seq<VfioPlatformIrqInfo> },
}

impl View for SetupCall {
    type V = SetupCallView;

    open spec fn view(&self) -> SetupCallView {
        match *self {
            SetupCall::OpenGroup => SetupCallView::OpenGroup,
            SetupCall::ResolveName => SetupCallView::ResolveName,
            SetupCall::GetDeviceFd { name } => SetupCallView::GetDeviceFd { name: name@ },
            SetupCall::GetDeviceInfo => SetupCallView::GetDeviceInfo,
            SetupCall::MapRegions { plan } => SetupCallView::MapRegions { plan: plan@ },
            SetupCall::WireIrq { spi, irqs } => SetupCallView::WireIrq { spi, irqs: irqs@ },
        }
    }
}

/// What came of a call.
#[derive(Debug)]
pub enum SetupAnswer {
    /// Whether the group is open.
    Group(Result<(), PlatformDeviceError>),
    /// The device's name.
    Name(Result<String, PlatformDeviceError>),
    /// Whether the device is open.
    Device(Result<(), PlatformDeviceError>),
    /// What the device has, and the host's page size.
    Info { info: Result<DeviceInfo, PlatformDeviceError>, page_size: u64 },
    /// The regions that the guest sees.
    Regions(Result<Vec<PlatformRegionMapping>, PlatformDeviceError>),
    /// The guest's interrupt.
    Irq(Result<u32, PlatformDeviceError>),
}

/// The call that is outstanding, and what is needed behind it.
#[derive(Debug)]
pub enum SetupStage {
    OpenGroup,
    ResolveName,
    GetDeviceFd { name: String },
    GetDeviceInfo { name: String },
    MapRegions { name: String, irqs: Vec<VfioPlatformIrqInfo> },
    WireIrq { name: String, regions: Vec<PlatformRegionMapping> },
}

/// What a `SetupStage` says.
pub ghost enum SetupStageView {
    OpenGroup,
    ResolveName,
    GetDeviceFd { name: Seq<char> },
    GetDeviceInfo { name: Seq<char> },
    MapRegions { name: Seq<char>, irqs: Seq<VfioPlatformIrqInfo> },
    WireIrq { name: Seq<char>, regions: Seq<PlatformRegionMapping> },
}

impl View for SetupStage {
    type V = SetupStageView;

    open spec fn view(&self) -> SetupStageView {
        match *self {
            SetupStage::OpenGroup => SetupStageView::OpenGroup,
            SetupStage::ResolveName => SetupStageView::ResolveName,
            SetupStage::GetDeviceFd { name } => SetupStageView::GetDeviceFd { name: name@ },
            SetupStage::GetDeviceInfo { name } => SetupStageView::GetDeviceInfo { name: name@ },
            SetupStage::MapRegions { name, irqs } => SetupStageView::MapRegions {
                name: name@,
                irqs: irqs@,
            },
            SetupStage::WireIrq { name, regions } => SetupStageView::WireIrq {
                name: name@,
                regions: regions@,
            },
        }
    }
}

/// Where setting a device up stands.
#[derive(Debug)]
pub struct SetupState {
    pub config: PlatformDeviceConfig,
    pub stage: SetupStage,
}

/// What to do next, or the device.
pub type SetupStep = Step<SetupState, SetupCall, Result<VfioPlatformDevice, PlatformDeviceError>>;

/// What a `SetupStep` says.
pub type SetupStepView = Step<
    (PlatformDeviceConfig, SetupStageView),
    SetupCallView,
    Result<PlatformDeviceView, PlatformDeviceError>,
>;

/// What a `SetupStep` says.
pub open spec fn setup_step_view(step: SetupStep) -> SetupStepView {
    match step {
        Step::Call(state, call) => Step::Call((state.config, state.stage@), call@),
        Step::Done(Ok(device)) => Step::Done(Ok(device@)),
        Step::Done(Err(e)) => Step::Done(Err(e)),
    }
}

/// The answer is to the call that is outstanding, and the addresses that packed regions would get
/// stay in range.
pub open spec fn setup_answers(
    config: PlatformDeviceConfig,
    stage: SetupStageView,
    answer: SetupAnswer,
) -> bool {
    match stage {
        SetupStageView::OpenGroup => answer is Group,
        SetupStageView::ResolveName => answer is Name,
        SetupStageView::GetDeviceFd { .. } => answer is Device,
        SetupStageView::GetDeviceInfo { .. } => {
            &&& answer is Info
            &&& answer matches SetupAnswer::Info { info: Ok((regions, _)), page_size } ==> {
                &&& page_size > 0
                &&& region::layout_fits_in(config.map@, regions@, page_size as int)
            }
        },
        SetupStageView::MapRegions { .. } => answer is Regions,
        SetupStageView::WireIrq { .. } => answer is Irq,
    }
}

/// What the device is called.
pub open spec fn device_id(config: PlatformDeviceConfig, name: Seq<char>) -> Seq<char> {
    match config.id {
        Some(id) => id@,
        None => name,
    }
}

/// The device.
pub open spec fn finished(
    config: PlatformDeviceConfig,
    name: Seq<char>,
    regions: Seq<PlatformRegionMapping>,
    irq: Option<PlatformIrq>,
) -> SetupStepView {
    Step::Done(Ok(PlatformDeviceView { id: device_id(config, name), regions, irq }))
}

/// Opens the device of that name.
pub open spec fn open_device(config: PlatformDeviceConfig, name: Seq<char>) -> SetupStepView {
    Step::Call(
        (config, SetupStageView::GetDeviceFd { name }),
        SetupCallView::GetDeviceFd { name },
    )
}

/// What to do after an answer came in.
pub open spec fn setup_next(
    config: PlatformDeviceConfig,
    stage: SetupStageView,
    answer: SetupAnswer,
) -> SetupStepView {
    match (stage, answer) {
        (SetupStageView::OpenGroup, SetupAnswer::Group(Ok(_))) => match config.device_name {
            Some(name) => open_device(config, name@),
            None => Step::Call((config, SetupStageView::ResolveName), SetupCallView::ResolveName),
        },
        (SetupStageView::OpenGroup, SetupAnswer::Group(Err(e))) => Step::Done(Err(e)),
        (SetupStageView::ResolveName, SetupAnswer::Name(Ok(name))) => open_device(config, name@),
        (SetupStageView::ResolveName, SetupAnswer::Name(Err(e))) => Step::Done(Err(e)),
        (SetupStageView::GetDeviceFd { name }, SetupAnswer::Device(Ok(_))) => Step::Call(
            (config, SetupStageView::GetDeviceInfo { name }),
            SetupCallView::GetDeviceInfo,
        ),
        (SetupStageView::GetDeviceFd { .. }, SetupAnswer::Device(Err(e))) => Step::Done(Err(e)),
        (
            SetupStageView::GetDeviceInfo { name },
            SetupAnswer::Info { info: Ok((regions, irqs)), page_size },
        ) => Step::Call(
            (config, SetupStageView::MapRegions { name, irqs: irqs@ }),
            SetupCallView::MapRegions {
                plan: region::plan_of(config.map@, regions@, page_size as int),
            },
        ),
        (SetupStageView::GetDeviceInfo { .. }, SetupAnswer::Info { info: Err(e), .. }) =>
            Step::Done(Err(e)),
        (
            SetupStageView::MapRegions { name, irqs },
            SetupAnswer::Regions(Ok(regions)),
        ) => match config.irq {
            Some(spi) => Step::Call(
                (config, SetupStageView::WireIrq { name, regions: regions@ }),
                SetupCallView::WireIrq { spi, irqs },
            ),
            None => finished(config, name, regions@, None),
        },
        (SetupStageView::MapRegions { .. }, SetupAnswer::Regions(Err(e))) => Step::Done(Err(e)),
        (SetupStageView::WireIrq { name, regions }, SetupAnswer::Irq(Ok(gsi))) => finished(
            config,
            name,
            regions,
            Some(PlatformIrq { gsi }),
        ),
        (SetupStageView::WireIrq { .. }, SetupAnswer::Irq(Err(e))) => Step::Done(Err(e)),
        _ => arbitrary(),
    }
}

impl VfioPlatformDevice {
    /// Starts to set a device up.
    pub fn new(config: PlatformDeviceConfig) -> (step: SetupStep)
        ensures
            setup_step_view(step) == SetupStepView::Call(
                (config, SetupStageView::OpenGroup),
                SetupCallView::OpenGroup,
            ),
    {
        Step::Call(SetupState { config, stage: SetupStage::OpenGroup }, SetupCall::OpenGroup)
    }

    /// Opens the device of that name.
    fn open(config: PlatformDeviceConfig, name: String) -> (step: SetupStep)
        ensures
            setup_step_view(step) == open_device(config, name@),
    {
        let call = SetupCall::GetDeviceFd { name: name.clone() };
        Step::Call(SetupState { config, stage: SetupStage::GetDeviceFd { name } }, call)
    }

    /// Puts the device together.
    fn finish(
        config: PlatformDeviceConfig,
        name: String,
        regions: Vec<PlatformRegionMapping>,
        irq: Option<PlatformIrq>,
    ) -> (step: SetupStep)
        ensures
            setup_step_view(step) == finished(config, name@, regions@, irq),
    {
        let id: String = match config.id {
            Some(id) => id,
            None => name,
        };
        Step::Done(Ok(VfioPlatformDevice { id, regions, irq }))
    }

    /// Goes on setting a device up.
    pub fn resume(state: SetupState, answer: SetupAnswer) -> (step: SetupStep)
        requires
            setup_answers(state.config, state.stage@, answer),
        ensures
            setup_step_view(step) == setup_next(state.config, state.stage@, answer),
    {
        let SetupState { config, stage } = state;
        match (stage, answer) {
            (SetupStage::OpenGroup, SetupAnswer::Group(Ok(_))) => {
                let name: Option<String> = match &config.device_name {
                    Some(name) => Some(name.clone()),
                    None => None,
                };
                match name {
                    Some(name) => Self::open(config, name),
                    None => Step::Call(
                        SetupState { config, stage: SetupStage::ResolveName },
                        SetupCall::ResolveName,
                    ),
                }
            },
            (SetupStage::OpenGroup, SetupAnswer::Group(Err(e))) => Step::Done(Err(e)),
            (SetupStage::ResolveName, SetupAnswer::Name(Ok(name))) => Self::open(config, name),
            (SetupStage::ResolveName, SetupAnswer::Name(Err(e))) => Step::Done(Err(e)),
            (SetupStage::GetDeviceFd { name }, SetupAnswer::Device(Ok(_))) => Step::Call(
                SetupState { config, stage: SetupStage::GetDeviceInfo { name } },
                SetupCall::GetDeviceInfo,
            ),
            (SetupStage::GetDeviceFd { .. }, SetupAnswer::Device(Err(e))) => Step::Done(Err(e)),
            (
                SetupStage::GetDeviceInfo { name },
                SetupAnswer::Info { info: Ok((regions, irqs)), page_size },
            ) => {
                let plan = region::plan_regions(
                    config.map.as_slice(),
                    regions.as_slice(),
                    page_size,
                );
                Step::Call(
                    SetupState { config, stage: SetupStage::MapRegions { name, irqs } },
                    SetupCall::MapRegions { plan },
                )
            },
            (SetupStage::GetDeviceInfo { .. }, SetupAnswer::Info { info: Err(e), .. }) =>
                Step::Done(Err(e)),
            (
                SetupStage::MapRegions { name, irqs },
                SetupAnswer::Regions(Ok(regions)),
            ) => match config.irq {
                Some(spi) => Step::Call(
                    SetupState { config, stage: SetupStage::WireIrq { name, regions } },
                    SetupCall::WireIrq { spi, irqs },
                ),
                None => Self::finish(config, name, regions, None),
            },
            (SetupStage::MapRegions { .. }, SetupAnswer::Regions(Err(e))) => Step::Done(Err(e)),
            (SetupStage::WireIrq { name, regions }, SetupAnswer::Irq(Ok(gsi))) => Self::finish(
                config,
                name,
                regions,
                Some(PlatformIrq { gsi }),
            ),
            (SetupStage::WireIrq { .. }, SetupAnswer::Irq(Err(e))) => Step::Done(Err(e)),
            _ => unreached(),
        }
    }

    /// The guest's address of the device's region 0, if that one is mapped.
    pub fn base_gpa(&self) -> (r: Option<u64>)
        ensures
            match r {
                Some(gpa) => exists|i: int|
                    0 <= i < self@.regions.len() && (#[trigger] self@.regions[i]).index == 0
                        && self@.regions[i].gpa == gpa && forall|j: int|
                        0 <= j < i ==> (#[trigger] self@.regions[j]).index != 0,
                None => forall|i: int|
                    0 <= i < self@.regions.len() ==> (#[trigger] self@.regions[i]).index != 0,
            },
    {
        let mut i: usize = 0;
        while i < self.regions.len()
            invariant
                i <= self.regions@.len(),
                forall|j: int| 0 <= j < i ==> (#[trigger] self.regions@[j]).index != 0,
            decreases self.regions.len() - i,
        {
            if self.regions[i].index == 0 {
                assert(self@.regions[i as int].index == 0);
                return Some(self.regions[i].gpa);
            }
            i = i + 1;
        }
        None
    }

    /// What the device is called.
    pub fn id(&self) -> (r: &str)
        ensures
            r@ == self@.id,
    {
        self.id.as_str()
    }

    /// Slot, address and length of each region that the guest sees.
    pub fn region_summary(&self) -> (r: Vec<(u32, u64, u64)>)
        ensures
            r@ == self@.regions.map_values(
                |m: PlatformRegionMapping| (m.slot, m.gpa, m.size),
            ),
    {
        let mut r: Vec<(u32, u64, u64)> = Vec::new();
        let mut i: usize = 0;
        while i < self.regions.len()
            invariant
                i <= self.regions@.len(),
                r@ == self.regions@.take(i as int).map_values(
                    |m: PlatformRegionMapping| (m.slot, m.gpa, m.size),
                ),
            decreases self.regions.len() - i,
        {
            let m: PlatformRegionMapping = self.regions[i];
            r.push((m.slot, m.gpa, m.size));
            assert(self.regions@.take(i + 1) =~= self.regions@.take(i as int).push(m));
            i = i + 1;
        }
        assert(self.regions@.take(i as int) =~= self.regions@);
        r
    }

    /// The guest's interrupt.
    pub fn gsi(&self) -> (r: Option<u32>)
        ensures
            r == match self@.irq {
                Some(irq) => Some(irq.gsi),
                None => None,
            },
    {
        match &self.irq {
            Some(irq) => Some(irq.gsi),
            None => None,
        }
    }
}

} // verus!
