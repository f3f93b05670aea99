use npu_vmm::device_info;
use npu_vmm::device_info::{InfoAnswer, InfoCall, InfoState, InfoStep};
use npu_vmm::group;
use npu_vmm::group::{DeviceFdCall, GroupAnswer, GroupCall, GroupState, GroupStep};
use npu_vmm::path::HostPath;
use npu_vmm::platform_error::{IoError, PlatformDeviceError};
use npu_vmm::step::Step;
use npu_vmm::text;
use npu_vmm::vfio::{VfioDeviceInfo, VfioGroupStatus, VfioIrqInfo, VfioRegionInfo};

fn host_path(s: &[u8]) -> HostPath {
    HostPath { bytes: s.to_vec() }
}

fn group_call(step: GroupStep) -> (GroupState, GroupCall) {
    match step {
        Step::Call(state, call) => (state, call),
        Step::Done(r) => panic!("{r:?}"),
    }
}

fn group_end(step: GroupStep) -> Result<(), PlatformDeviceError> {
    match step {
        Step::Done(r) => r,
        Step::Call(_, call) => panic!("{call:?}"),
    }
}

fn group_opened() -> GroupAnswer {
    GroupAnswer::Opened(Ok(()))
}

fn status_flags(flags: u32) -> GroupAnswer {
    GroupAnswer::Status { ret: 0, flags, last_error: IoError::Os(0) }
}

fn group_returned(ret: i32, e: i32) -> GroupAnswer {
    GroupAnswer::Returned { ret, last_error: IoError::Os(e) }
}

/// Opens a group with answers that succeed, up to the given number of them.
fn open_up_to(n: usize) -> (GroupState, GroupCall) {
    let answers = vec![group_opened(), group_opened(), status_flags(1), group_returned(0, 0)];
    let (mut state, mut call) = group_call(group::open_group(host_path(b"/dev/vfio/noiommu-15")));
    for answer in answers.into_iter().take(n) {
        (state, call) = group_call(group::resume_open_group(state, answer));
    }
    (state, call)
}

#[test]
fn group_opens_in_order() {
    assert_eq!(open_up_to(0).1, GroupCall::OpenContainer { path: "/dev/vfio/vfio" });
    assert_eq!(open_up_to(1).1, GroupCall::OpenGroup);
    assert_eq!(open_up_to(2).1, GroupCall::GetStatus(VfioGroupStatus { argsz: 8, flags: 0 }));
    assert_eq!(open_up_to(3).1, GroupCall::SetContainer);
    let (state, call) = open_up_to(4);
    assert_eq!(call, GroupCall::SetIommu { model: 8 });
    assert!(group_end(group::resume_open_group(state, group_returned(0, 0))).is_ok());
}

#[test]
fn group_that_does_not_open() {
    let failed = |n: usize, answer: GroupAnswer| {
        group_end(group::resume_open_group(open_up_to(n).0, answer)).unwrap_err()
    };
    let e = failed(0, GroupAnswer::Opened(Err(IoError::Os(2))));
    assert!(matches!(e, PlatformDeviceError::OpenContainer(IoError::Os(2))));
    match failed(1, GroupAnswer::Opened(Err(IoError::Os(13)))) {
        PlatformDeviceError::OpenGroup(path, IoError::Os(13)) => {
            assert_eq!(path.bytes, b"/dev/vfio/noiommu-15")
        }
        other => panic!("{other:?}"),
    }
    let e = failed(2, GroupAnswer::Status { ret: -1, flags: 1, last_error: IoError::Os(25) });
    assert!(matches!(e, PlatformDeviceError::GroupStatus(IoError::Os(25))));
    assert!(matches!(failed(2, status_flags(0)), PlatformDeviceError::GroupNotViable));
    assert!(matches!(failed(2, status_flags(0xfffe)), PlatformDeviceError::GroupNotViable));
    let e = failed(3, group_returned(-1, 16));
    assert!(matches!(e, PlatformDeviceError::SetContainer(IoError::Os(16))));
    let e = failed(4, group_returned(-1, 1));
    assert!(matches!(e, PlatformDeviceError::SetNoiommu(IoError::Os(1))));
}

#[test]
fn group_that_returns_more_than_zero_opens() {
    let (state, _) = open_up_to(2);
    let status = GroupAnswer::Status { ret: 7, flags: 3, last_error: IoError::Os(0) };
    assert_eq!(group_call(group::resume_open_group(state, status)).1, GroupCall::SetContainer);
}

#[test]
fn device_directories() {
    let dir = |s: &[u8]| group::devices_dir(&host_path(s));
    assert_eq!(dir(b"/dev/vfio/noiommu-15"), "/sys/kernel/iommu_groups/15/devices");
    assert_eq!(dir(b"/dev/vfio/noiommu-15/"), "/sys/kernel/iommu_groups/15/devices");
    assert_eq!(dir(b"/dev/vfio/noiommu-15/."), "/sys/kernel/iommu_groups/15/devices");
    assert_eq!(dir(b"/dev/vfio/7"), "/sys/kernel/iommu_groups/7/devices");
    assert_eq!(dir(b"7"), "/sys/kernel/iommu_groups/7/devices");
    assert_eq!(dir(b"noiommu-noiommu-1"), "/sys/kernel/iommu_groups/noiommu-1/devices");
    assert_eq!(dir(b"/dev/vfio/noiommu-"), "/sys/kernel/iommu_groups//devices");
    assert_eq!(dir(b"/dev/vfio/noiommu"), "/sys/kernel/iommu_groups/noiommu/devices");
    assert_eq!(dir(b"/dev/vfio/.."), "/sys/kernel/iommu_groups//devices");
    assert_eq!(dir(b"/"), "/sys/kernel/iommu_groups//devices");
    assert_eq!(dir(b""), "/sys/kernel/iommu_groups//devices");
    // Names of other alphabets are text, but not every sequence of bytes is.
    assert_eq!(dir("/dev/vfio/grüß".as_bytes()), "/sys/kernel/iommu_groups/grüß/devices");
    assert_eq!(dir(b"/dev/vfio/\xff15"), "/sys/kernel/iommu_groups//devices");
}

#[test]
fn file_names_are_those_of_std() {
    for s in [
        "", "/", "//", ".", "./", "..", "../", "a", "a/", "a//", "a/.", "a/./.", "a/..", "/a", "./a",
        "a/b", "a/b/", "a//b", "a/./b", "a/.b", "a/b.", "a/...", "...", "a/..b", ". ", "/dev/vfio/15",
        "/.", "/..", "/./", "a/../b", "..a", "a/b./", "a/..//", "./.", "x/./../.",
    ] {
        let expected = std::path::Path::new(s).file_name().map(|n| n.as_encoded_bytes().to_vec());
        let found = host_path(s.as_bytes()).file_name().map(|n| n.to_vec());
        assert_eq!(found, expected, "{s:?}");
    }
}

#[test]
fn prefixes_and_decimals() {
    assert_eq!(text::strip_prefix("noiommu-3", "noiommu-"), "3");
    assert_eq!(text::strip_prefix("noiommu", "noiommu-"), "noiommu");
    assert_eq!(text::strip_prefix("üab", "ü"), "ab");
    assert_eq!(text::strip_prefix("ab", ""), "ab");
    for n in [0u32, 7, 10, 32, 99, 100, 1_234_567_890, u32::MAX] {
        let mut s = "got ".to_owned();
        text::push_decimal(&mut s, n);
        assert_eq!(s, format!("got {n}"));
    }
}

#[test]
fn the_only_device_of_a_group() {
    let dir = || "/sys/kernel/iommu_groups/15/devices".to_owned();
    let name = |entries| group::device_name_from_sysfs(dir(), Ok(entries));
    assert_eq!(name(vec![Ok("fdad0000.npu".to_owned())]).unwrap(), "fdad0000.npu");
    // Entries that cannot be read do not count.
    let entries = vec![Err(IoError::Os(5)), Ok("x".to_owned()), Err(IoError::Os(5))];
    assert_eq!(name(entries).unwrap(), "x");
    for entries in [
        vec![],
        vec![Err(IoError::Os(5))],
        vec![Ok("a".to_owned()), Ok("b".to_owned())],
        vec![Ok("a".to_owned()), Err(IoError::Os(5)), Ok("a".to_owned())],
    ] {
        match name(entries) {
            Err(PlatformDeviceError::ResolveDeviceName(d, why)) => {
                assert_eq!(d, dir());
                assert_eq!(why, "expected exactly one device in group");
            }
            other => panic!("{other:?}"),
        }
    }
    match group::device_name_from_sysfs(dir(), Err("No such file".to_owned())) {
        Err(PlatformDeviceError::ResolveDeviceName(d, why)) => {
            assert_eq!(d, dir());
            assert_eq!(why, "No such file");
        }
        other => panic!("{other:?}"),
    }
}

#[test]
fn device_descriptors() {
    assert_eq!(group::resume_device_fd(0, IoError::Os(0)).unwrap(), 0);
    assert_eq!(group::resume_device_fd(9, IoError::Os(0)).unwrap(), 9);
    let e = group::resume_device_fd(-1, IoError::Os(19)).unwrap_err();
    assert!(matches!(e, PlatformDeviceError::GetDeviceFd(IoError::Os(19))));
}

#[test]
fn device_names_for_the_driver() {
    let given = |name: &str| match group::get_device_fd(name) {
        DeviceFdCall::GetDeviceFd { name } => name,
    };
    assert_eq!(given("fdad0000.npu"), b"fdad0000.npu\0");
    assert_eq!(given(""), b"\0");
    assert_eq!(given("\u{e9}"), [0xc3, 0xa9, 0]);
    assert_eq!(group::device_name_arg("fdada000.iommu").unwrap(), b"fdada000.iommu\0");
    assert_eq!(group::device_name_arg("\u{20ac}").unwrap(), [0xe2, 0x82, 0xac, 0]);
    for name in ["\0", "a\0", "\0a", "fdad\0.npu"] {
        assert!(group::device_name_arg(name).is_none());
    }
}

#[test]
fn errors_of_the_host() {
    assert_eq!(IoError::Os(4).raw_os_error(), Some(4));
    assert_eq!(IoError::other("x").raw_os_error(), None);
}

fn info_call(step: InfoStep) -> (InfoState, InfoCall) {
    match step {
        Step::Call(state, call) => (state, call),
        Step::Done(r) => panic!("{r:?}"),
    }
}

fn has_said(num_regions: u32, num_irqs: u32) -> InfoAnswer {
    InfoAnswer::Device { ret: 0, num_regions, num_irqs, last_error: IoError::Os(0) }
}

fn region_said(flags: u32, size: u64, offset: u64) -> InfoAnswer {
    InfoAnswer::Region { ret: 0, flags, size, offset, last_error: IoError::Os(0) }
}

fn irq_said(flags: u32, count: u32) -> InfoAnswer {
    InfoAnswer::Irq { ret: 0, flags, count, last_error: IoError::Os(0) }
}

fn region_asked(index: u32) -> InfoCall {
    InfoCall::Region(VfioRegionInfo { argsz: 32, flags: 0, index, cap_offset: 0, size: 0, offset: 0 })
}

fn irq_asked(index: u32) -> InfoCall {
    InfoCall::Irq(VfioIrqInfo { argsz: 16, flags: 0, index, count: 0 })
}

#[test]
fn everything_is_asked_once() {
    let (state, call) = info_call(device_info::get_device_info());
    assert_eq!(
        call,
        InfoCall::Device(VfioDeviceInfo {
            argsz: 24,
            flags: 0,
            num_regions: 0,
            num_irqs: 0,
            cap_offset: 0,
            pad: 0
        })
    );
    let (state, call) = info_call(device_info::resume_device_info(state, has_said(2, 1)));
    assert_eq!(call, region_asked(0));
    let (state, call) = info_call(device_info::resume_device_info(state, region_said(7, 4096, 1)));
    assert_eq!(call, region_asked(1));
    let (state, call) = info_call(device_info::resume_device_info(state, region_said(3, 100, 2)));
    assert_eq!(call, irq_asked(0));
    match device_info::resume_device_info(state, irq_said(1, 2)) {
        Step::Done(Ok((regions, irqs))) => {
            let got: Vec<_> = regions.iter().map(|r| (r.index, r.flags, r.size, r.offset)).collect();
            assert_eq!(got, vec![(0, 7, 4096, 1), (1, 3, 100, 2)]);
            let got: Vec<_> = irqs.iter().map(|i| (i.index, i.flags, i.count)).collect();
            assert_eq!(got, vec![(0, 1, 2)]);
        }
        other => panic!("{other:?}"),
    }
}

#[test]
fn device_without_anything() {
    match device_info::resume_device_info(InfoState::Device, has_said(0, 0)) {
        Step::Done(Ok((regions, irqs))) => assert!(regions.is_empty() && irqs.is_empty()),
        other => panic!("{other:?}"),
    }
    let (_, call) = info_call(device_info::resume_device_info(InfoState::Device, has_said(0, 3)));
    assert_eq!(call, irq_asked(0));
}

#[test]
fn device_that_does_not_say() {
    let e = InfoAnswer::Device { ret: -1, num_regions: 3, num_irqs: 3, last_error: IoError::Os(9) };
    match device_info::resume_device_info(InfoState::Device, e) {
        Step::Done(Err(PlatformDeviceError::GetDeviceInfo(IoError::Os(9)))) => {}
        other => panic!("{other:?}"),
    }
    let (state, _) = info_call(device_info::resume_device_info(InfoState::Device, has_said(1, 1)));
    let e = InfoAnswer::Region { ret: -1, flags: 0, size: 0, offset: 0, last_error: IoError::Os(22) };
    match device_info::resume_device_info(state, e) {
        Step::Done(Err(PlatformDeviceError::GetRegionInfo(IoError::Os(22)))) => {}
        other => panic!("{other:?}"),
    }
    let (state, _) = info_call(device_info::resume_device_info(InfoState::Device, has_said(0, 1)));
    let e = InfoAnswer::Irq { ret: -1, flags: 0, count: 0, last_error: IoError::Os(22) };
    match device_info::resume_device_info(state, e) {
        Step::Done(Err(PlatformDeviceError::GetIrqInfo(IoError::Os(22)))) => {}
        other => panic!("{other:?}"),
    }
}
