use npu_vmm::device_info::{VfioPlatformIrqInfo, VfioPlatformRegionInfo};
use npu_vmm::irq;
use npu_vmm::irq::{IrqAnswer, IrqCall, IrqState, IrqStep};
use npu_vmm::mapping::PlatformRegionMapping;
use npu_vmm::path::HostPath;
use npu_vmm::platform_device::{
    PlatformDeviceConfig, SetupAnswer, SetupCall, SetupState, SetupStep, VfioPlatformDevice,
};
use npu_vmm::platform_error::{HypervisorVmError, IoError, PlatformDeviceError};
use npu_vmm::probe;
use npu_vmm::probe::{ProbeAnswer, ProbeCall, ProbeDevice, ProbeState, ProbeStep};
use npu_vmm::step::Step;
use npu_vmm::vfio::VfioIrqSet;

fn irq_of(index: u32, flags: u32) -> VfioPlatformIrqInfo {
    VfioPlatformIrqInfo { index, flags, count: 1 }
}

fn irq_call(step: IrqStep) -> (IrqState, IrqCall) {
    match step {
        Step::Call(state, call) => (state, call),
        Step::Done(r) => panic!("{r:?}"),
    }
}

fn irq_end(step: IrqStep) -> Result<u32, PlatformDeviceError> {
    match step {
        Step::Done(r) => r,
        Step::Call(_, call) => panic!("{call:?}"),
    }
}

fn irq_set_returned(ret: i32, e: i32) -> IrqAnswer {
    IrqAnswer::Returned { ret, last_error: IoError::Os(e) }
}

/// Wires an interrupt up to the second eventfd's action.
fn wired_up(spi: u32) -> IrqState {
    let irqs = [irq_of(1, 1), irq_of(0, 1)];
    let (state, call) = irq_call(irq::wire_irq(spi, &irqs));
    assert_eq!(call, IrqCall::CreateTrigger { flags: libc::EFD_NONBLOCK });
    let (state, call) = irq_call(irq::resume_wire_irq(state, IrqAnswer::EventFd(Ok(10))));
    assert_eq!(call, IrqCall::CreateResample { flags: libc::EFD_NONBLOCK });
    let (state, call) = irq_call(irq::resume_wire_irq(state, IrqAnswer::EventFd(Ok(11))));
    let set = VfioIrqSet { argsz: 24, flags: 4 | 32, index: 0, start: 0, count: 1, eventfd: 10 };
    assert_eq!(call, IrqCall::SetIrqs(set));
    let (state, call) = irq_call(irq::resume_wire_irq(state, irq_set_returned(0, 0)));
    let set = VfioIrqSet { argsz: 24, flags: 4 | 16, index: 0, start: 0, count: 1, eventfd: 11 };
    assert_eq!(call, IrqCall::SetIrqs(set));
    state
}

#[test]
fn interrupts_are_wired() {
    for spi in [0, 5, 31] {
        let (state, call) = irq_call(irq::resume_wire_irq(wired_up(spi), irq_set_returned(0, 0)));
        assert_eq!(call, IrqCall::Register { trigger: 10, resample: 11, gsi: spi + 32 });
        let gsi = irq_end(irq::resume_wire_irq(state, IrqAnswer::Registered(Ok(())))).unwrap();
        assert_eq!(gsi, spi + 32);
    }
}

#[test]
fn interrupts_out_of_range() {
    for spi in [32, 111, u32::MAX] {
        match irq_end(irq::resume_wire_irq(wired_up(spi), irq_set_returned(0, 0))) {
            Err(PlatformDeviceError::SetIrqs(IoError::Other(text))) => assert_eq!(
                text,
                format!("platform device IRQ must be a legacy-range SPI (0..31), got {spi}")
            ),
            other => panic!("{other:?}"),
        }
    }
}

#[test]
fn devices_whose_interrupt_cannot_be_wired() {
    for irqs in [vec![], vec![irq_of(1, 1), irq_of(2, 1)]] {
        match irq_end(irq::wire_irq(3, &irqs)) {
            Err(PlatformDeviceError::GetIrqInfo(IoError::Other(text))) => {
                assert_eq!(text, "platform device has no IRQ index 0")
            }
            other => panic!("{other:?}"),
        }
    }
    // The first interrupt of that number decides.
    match irq_end(irq::wire_irq(3, &[irq_of(0, 0xfffe), irq_of(0, 1)])) {
        Err(PlatformDeviceError::SetIrqs(IoError::Other(text))) => {
            assert_eq!(text, "platform device IRQ does not support eventfd signaling")
        }
        other => panic!("{other:?}"),
    }
}

#[test]
fn wiring_that_fails() {
    let (state, _) = irq_call(irq::wire_irq(3, &[irq_of(0, 1)]));
    let r = irq_end(irq::resume_wire_irq(state, IrqAnswer::EventFd(Err(IoError::Os(24)))));
    assert!(matches!(r, Err(PlatformDeviceError::CreateEventFd(IoError::Os(24)))));
    let (state, _) = irq_call(irq::wire_irq(3, &[irq_of(0, 1)]));
    let (state, _) = irq_call(irq::resume_wire_irq(state, IrqAnswer::EventFd(Ok(4))));
    let r = irq_end(irq::resume_wire_irq(state, IrqAnswer::EventFd(Err(IoError::Os(23)))));
    assert!(matches!(r, Err(PlatformDeviceError::CreateEventFd(IoError::Os(23)))));
    let (state, _) = irq_call(irq::wire_irq(3, &[irq_of(0, 1)]));
    let (state, _) = irq_call(irq::resume_wire_irq(state, IrqAnswer::EventFd(Ok(4))));
    let (state, _) = irq_call(irq::resume_wire_irq(state, IrqAnswer::EventFd(Ok(5))));
    let r = irq_end(irq::resume_wire_irq(state, irq_set_returned(-1, 22)));
    assert!(matches!(r, Err(PlatformDeviceError::SetIrqs(IoError::Os(22)))));
    // A failure to set the second action comes ahead of the range.
    let r = irq_end(irq::resume_wire_irq(wired_up(99), irq_set_returned(-1, 25)));
    assert!(matches!(r, Err(PlatformDeviceError::SetIrqs(IoError::Os(25)))));
    let (state, _) = irq_call(irq::resume_wire_irq(wired_up(3), irq_set_returned(0, 0)));
    let refused = IrqAnswer::Registered(Err(HypervisorVmError { text: "no".to_owned() }));
    match irq_end(irq::resume_wire_irq(state, refused)) {
        Err(PlatformDeviceError::RegisterIrqfd(e)) => assert_eq!(e.text, "no"),
        other => panic!("{other:?}"),
    }
}

#[test]
fn eventfd_structure() {
    let set = irq::set_irq_eventfd(2, 16, -1);
    let expected =
        VfioIrqSet { argsz: 24, flags: 20, index: 2, start: 0, count: 1, eventfd: u32::MAX };
    assert_eq!(set, expected);
    assert!(irq::irq_set_result(0, IoError::Os(1)).is_ok());
    assert!(irq::irq_set_result(3, IoError::Os(1)).is_ok());
    let r = irq::irq_set_result(-1, IoError::Os(1));
    assert!(matches!(r, Err(PlatformDeviceError::SetIrqs(IoError::Os(1)))));
}

fn sample_config(id: Option<&str>, device_name: Option<&str>, irq: Option<u32>) -> PlatformDeviceConfig {
    PlatformDeviceConfig {
        id: id.map(str::to_owned),
        group: HostPath { bytes: b"/dev/vfio/noiommu-15".to_vec() },
        device_name: device_name.map(str::to_owned),
        map: vec![0xfdad_0000],
        irq,
    }
}

fn setup_call(step: SetupStep) -> (SetupState, SetupCall) {
    match step {
        Step::Call(state, call) => (state, call),
        Step::Done(r) => panic!("{r:?}"),
    }
}

fn setup_end(step: SetupStep) -> Result<VfioPlatformDevice, PlatformDeviceError> {
    match step {
        Step::Done(r) => r,
        Step::Call(_, call) => panic!("{call:?}"),
    }
}

fn sample_info() -> SetupAnswer {
    let region = |index, size| VfioPlatformRegionInfo { index, flags: 7, size, offset: 0 };
    let regions = vec![region(0, 100), region(1, 5000)];
    SetupAnswer::Info { info: Ok((regions, vec![irq_of(0, 1)])), page_size: 4096 }
}

fn sample_mappings(indices: &[u32]) -> Vec<PlatformRegionMapping> {
    indices
        .iter()
        .map(|i| PlatformRegionMapping {
            index: *i,
            slot: 10 + i,
            gpa: 0xfdad_0000 + u64::from(*i) * 0x1000,
            size: 4096,
        })
        .collect()
}

/// Sets a device up to where its regions are to be mapped.
fn set_up_to_mapping(config: PlatformDeviceConfig) -> SetupState {
    let named = config.device_name.clone();
    let (state, call) = setup_call(VfioPlatformDevice::new(config));
    assert!(matches!(call, SetupCall::OpenGroup));
    let (mut state, mut call) = setup_call(VfioPlatformDevice::resume(state, SetupAnswer::Group(Ok(()))));
    if named.is_none() {
        assert!(matches!(call, SetupCall::ResolveName));
        let found = SetupAnswer::Name(Ok("fdad0000.npu".to_owned()));
        (state, call) = setup_call(VfioPlatformDevice::resume(state, found));
    }
    match call {
        SetupCall::GetDeviceFd { name } => {
            assert_eq!(name, named.unwrap_or_else(|| "fdad0000.npu".to_owned()))
        }
        other => panic!("{other:?}"),
    }
    let (state, call) = setup_call(VfioPlatformDevice::resume(state, SetupAnswer::Device(Ok(()))));
    assert!(matches!(call, SetupCall::GetDeviceInfo));
    let (state, call) = setup_call(VfioPlatformDevice::resume(state, sample_info()));
    match call {
        SetupCall::MapRegions { plan } => {
            let got: Vec<_> = plan.iter().map(|p| (p.region.index, p.gpa, p.len)).collect();
            assert_eq!(got, vec![(0, 0xfdad_0000, Some(4096)), (1, 0xfdad_1000, Some(8192))]);
        }
        other => panic!("{other:?}"),
    }
    state
}

#[test]
fn device_with_an_interrupt() {
    let state = set_up_to_mapping(sample_config(Some("npu0"), None, Some(5)));
    let mapped = SetupAnswer::Regions(Ok(sample_mappings(&[0, 1])));
    let (state, call) = setup_call(VfioPlatformDevice::resume(state, mapped));
    match call {
        SetupCall::WireIrq { spi, irqs } => {
            assert_eq!(spi, 5);
            assert_eq!(irqs, vec![irq_of(0, 1)]);
        }
        other => panic!("{other:?}"),
    }
    let device = setup_end(VfioPlatformDevice::resume(state, SetupAnswer::Irq(Ok(37)))).unwrap();
    assert_eq!(device.id(), "npu0");
    assert_eq!(device.gsi(), Some(37));
    assert_eq!(device.base_gpa(), Some(0xfdad_0000));
    assert_eq!(
        device.region_summary(),
        vec![(10, 0xfdad_0000, 4096), (11, 0xfdad_1000, 4096)]
    );
}

#[test]
fn device_without_an_interrupt() {
    let state = set_up_to_mapping(sample_config(None, None, None));
    let mapped = SetupAnswer::Regions(Ok(sample_mappings(&[])));
    let device = setup_end(VfioPlatformDevice::resume(state, mapped)).unwrap();
    assert_eq!(device.id(), "fdad0000.npu");
    assert_eq!(device.gsi(), None);
    assert_eq!(device.base_gpa(), None);
    assert!(device.region_summary().is_empty());
}

#[test]
fn device_of_a_given_name() {
    let state = set_up_to_mapping(sample_config(None, Some("other.npu"), None));
    let mapped = SetupAnswer::Regions(Ok(sample_mappings(&[0])));
    let device = setup_end(VfioPlatformDevice::resume(state, mapped)).unwrap();
    assert_eq!(device.id(), "other.npu");
}

#[test]
fn base_is_that_of_region_zero() {
    let state = set_up_to_mapping(sample_config(None, None, None));
    let mapped = SetupAnswer::Regions(Ok(sample_mappings(&[1])));
    let device = setup_end(VfioPlatformDevice::resume(state, mapped)).unwrap();
    assert_eq!(device.base_gpa(), None);
    assert_eq!(device.region_summary().len(), 1);
}

#[test]
fn setup_that_fails() {
    let e = || PlatformDeviceError::GroupNotViable;
    let fails = |state: SetupState, answer: SetupAnswer| {
        let r = setup_end(VfioPlatformDevice::resume(state, answer));
        assert!(matches!(r, Err(PlatformDeviceError::GroupNotViable)));
    };
    let start = || setup_call(VfioPlatformDevice::new(sample_config(None, None, Some(1)))).0;
    let then = |state: SetupState, answer: SetupAnswer| {
        setup_call(VfioPlatformDevice::resume(state, answer)).0
    };
    let opened = || then(start(), SetupAnswer::Group(Ok(())));
    let named = || then(opened(), SetupAnswer::Name(Ok("x".to_owned())));
    let device = || then(named(), SetupAnswer::Device(Ok(())));
    let asked = || then(device(), sample_info());
    let mapped = || then(asked(), SetupAnswer::Regions(Ok(sample_mappings(&[0]))));
    fails(start(), SetupAnswer::Group(Err(e())));
    fails(opened(), SetupAnswer::Name(Err(e())));
    fails(named(), SetupAnswer::Device(Err(e())));
    fails(device(), SetupAnswer::Info { info: Err(e()), page_size: 4096 });
    fails(asked(), SetupAnswer::Regions(Err(e())));
    fails(mapped(), SetupAnswer::Irq(Err(e())));
}

fn probe_call(step: ProbeStep) -> (ProbeState, ProbeCall) {
    match step {
        Step::Call(state, call) => (state, call),
        Step::Done(r) => panic!("{r:?}"),
    }
}

fn pc_window() -> VfioPlatformRegionInfo {
    VfioPlatformRegionInfo { index: 0, flags: 7, size: 0x1000, offset: 3 }
}

/// Runs the probe up to where the version has been read.
fn probe_to_version() -> ProbeState {
    let ok = || ProbeAnswer::Returned(Ok(()));
    let (state, call) = probe_call(probe::rknn_probe());
    assert_eq!(call, ProbeCall::OpenGroup(ProbeDevice::Core));
    let (state, call) = probe_call(probe::resume_probe(state, ok()));
    assert_eq!(call, ProbeCall::GetDeviceFd(ProbeDevice::Core));
    let (state, call) = probe_call(probe::resume_probe(state, ok()));
    assert_eq!(call, ProbeCall::OpenGroup(ProbeDevice::Mmu));
    let (state, call) = probe_call(probe::resume_probe(state, ok()));
    assert_eq!(call, ProbeCall::GetDeviceFd(ProbeDevice::Mmu));
    let (state, call) = probe_call(probe::resume_probe(state, ok()));
    assert_eq!(call, ProbeCall::GetDeviceInfo(ProbeDevice::Core));
    let info = ProbeAnswer::Info(Ok((vec![pc_window()], vec![])));
    let (state, call) = probe_call(probe::resume_probe(state, info));
    assert_eq!(call, ProbeCall::GetDeviceInfo(ProbeDevice::Mmu));
    let info = ProbeAnswer::Info(Ok((vec![], vec![])));
    let (state, call) = probe_call(probe::resume_probe(state, info));
    assert_eq!(call, ProbeCall::MmapRegion { region: pc_window(), len: 0x1000 });
    let (state, call) = probe_call(probe::resume_probe(state, ok()));
    assert_eq!(call, ProbeCall::ReadVersion);
    state
}

#[test]
fn probe_of_an_npu() {
    // "FIRE", as the silicon says.
    for version in [0x4649_5245, 1, 0xffff_fffe] {
        let step = probe::resume_probe(probe_to_version(), ProbeAnswer::Version(version));
        assert!(matches!(step, Step::Done(Ok(()))));
    }
    for version in [0, 0xffff_ffff] {
        match probe::resume_probe(probe_to_version(), ProbeAnswer::Version(version)) {
            Step::Done(Err(PlatformDeviceError::MmapRegion(IoError::Other(text)))) => {
                assert_eq!(text, "invalid REG_PC_VERSION value")
            }
            other => panic!("{other:?}"),
        }
    }
}

#[test]
fn probe_that_fails() {
    let err = || Err(PlatformDeviceError::GroupNotViable);
    for state in [
        ProbeState::CoreGroup,
        ProbeState::CoreDevice,
        ProbeState::MmuGroup,
        ProbeState::MmuDevice,
        ProbeState::MmapRegion,
    ] {
        let step = probe::resume_probe(state, ProbeAnswer::Returned(err()));
        assert!(matches!(step, Step::Done(Err(PlatformDeviceError::GroupNotViable))));
    }
    for state in [ProbeState::CoreInfo, ProbeState::MmuInfo { region0: None }] {
        let step = probe::resume_probe(state, ProbeAnswer::Info(Err(PlatformDeviceError::GroupNotViable)));
        assert!(matches!(step, Step::Done(Err(PlatformDeviceError::GroupNotViable))));
    }
}

#[test]
fn probed_devices() {
    assert_eq!(ProbeDevice::Core.group_path(), "/dev/vfio/noiommu-15");
    assert_eq!(ProbeDevice::Core.device_name(), "fdad0000.npu");
    assert_eq!(ProbeDevice::Mmu.group_path(), "/dev/vfio/noiommu-16");
    assert_eq!(ProbeDevice::Mmu.device_name(), "fdada000.iommu");
}
