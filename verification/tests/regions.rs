use npu_vmm::device_info::VfioPlatformRegionInfo;
use npu_vmm::mapping;
use npu_vmm::mapping::{
    DevMemMapping, MapAnswer, MapCall, MapState, MapStep, MmapAnswer, MmapArgs, MmapCall, MmapStep,
    PlatformRegionMapping,
};
use npu_vmm::platform_error::{HypervisorVmError, IoError, PlatformDeviceError};
use npu_vmm::region;
use npu_vmm::region::PlannedRegion;
use npu_vmm::step::Step;

fn region_of(index: u32, flags: u32, size: u64) -> VfioPlatformRegionInfo {
    VfioPlatformRegionInfo { index, flags, size, offset: u64::from(index) << 40 }
}

fn placed(plan: &[PlannedRegion]) -> Vec<(u32, u64, u64)> {
    plan.iter().map(|p| (p.region.index, p.gpa, p.len.unwrap())).collect()
}

#[test]
fn an_address_for_each_region() {
    let regions = [region_of(0, 7, 4096), region_of(1, 7, 1), region_of(2, 7, 0)];
    let map = [0x1000, 0x1001, 0x9000];
    assert!(region::layout_fits(&map, &regions, 4096));
    let plan = region::plan_regions(&map, &regions, 4096);
    assert_eq!(placed(&plan), vec![(0, 0x1000, 4096), (1, 0x1001, 4096), (2, 0x9000, 0)]);
    assert_eq!(plan[1].region, regions[1]);
}

#[test]
fn regions_are_packed_from_one_address() {
    let regions = [region_of(0, 7, 4097), region_of(1, 7, 4096), region_of(2, 7, 0), region_of(3, 7, 5)];
    let plan = region::plan_regions(&[0x10_0000], &regions, 4096);
    assert_eq!(
        placed(&plan),
        vec![(0, 0x10_0000, 8192), (1, 0x10_2000, 4096), (2, 0x10_3000, 0), (3, 0x10_3000, 4096)]
    );
    // Pages of another size, and a base that is no page boundary.
    let plan = region::plan_regions(&[10], &regions[..2], 65536);
    assert_eq!(placed(&plan), vec![(0, 10, 65536), (1, 65546, 65536)]);
}

#[test]
fn one_region_either_way() {
    let plan = region::plan_regions(&[0x5000], &[region_of(0, 7, 10)], 4096);
    assert_eq!(placed(&plan), vec![(0, 0x5000, 4096)]);
}

#[test]
fn addresses_that_do_not_match() {
    let regions = [region_of(0, 7, 4096), region_of(1, 7, 4096), region_of(2, 7, 4096)];
    assert!(region::plan_regions(&[], &regions, 4096).is_empty());
    assert!(region::plan_regions(&[1, 2], &regions, 4096).is_empty());
    assert!(region::plan_regions(&[1, 2, 3, 4], &regions, 4096).is_empty());
    assert!(region::plan_regions(&[1], &[], 4096).is_empty());
    assert!(region::plan_regions(&[], &[], 4096).is_empty());
}

#[test]
fn layouts_that_leave_the_range() {
    let huge = region_of(0, 7, u64::MAX);
    let small = region_of(1, 7, 4096);
    assert!(!region::layout_fits(&[0], &[huge, small], 4096));
    assert!(!region::layout_fits(&[0], &[small, huge], 4096));
    assert!(!region::layout_fits(&[u64::MAX], &[small, small], 4096));
    assert!(!region::layout_fits(&[u64::MAX - 8191], &[small, small], 4096));
    assert!(region::layout_fits(&[u64::MAX - 8192], &[small, small], 4096));
    // Only packed addresses are added up.
    assert!(region::layout_fits(&[0], &[huge], 4096));
    assert!(region::layout_fits(&[u64::MAX, u64::MAX], &[small, huge], 4096));
    assert!(region::layout_fits(&[], &[huge], 4096));
    assert!(region::layout_fits(&[1, 2, 3], &[huge], 4096));
}

#[test]
fn lengths_that_leave_the_range() {
    let small = region_of(0, 7, 4096);
    let most = region_of(1, 7, u64::MAX - 4095);
    let huge = region_of(2, 7, u64::MAX - 4094);
    let plan = region::plan_regions(&[1, 2, 3], &[small, most, huge], 4096);
    assert_eq!(plan[0].len, Some(4096));
    assert_eq!(plan[1].len, Some(u64::MAX - 4095));
    assert_eq!(plan[2].len, None);
    assert!(mapping::first_region_fits(&[]));
    assert!(mapping::first_region_fits(&plan));
    assert!(!mapping::first_region_fits(&plan[2..]));
    // The last region is only looked at when its turn comes.
    let (state, _) = map_call(mapping::map_regions(vec![plan[0], plan[2]]));
    assert!(state.next_region_fits(&MapAnswer::Region(Ok(()))));
    let (state, _) = map_call(mapping::resume_map_regions(state, MapAnswer::Region(Ok(()))));
    let (state, _) = map_call(mapping::resume_map_regions(state, MapAnswer::Slot(1)));
    assert!(!state.next_region_fits(&MapAnswer::Created(Ok(()))));
    let refused = MapAnswer::Created(Err(HypervisorVmError { text: "full".to_owned() }));
    assert!(state.next_region_fits(&refused));
    let e = map_error(mapping::resume_map_regions(state, refused));
    assert!(matches!(e, PlatformDeviceError::CreateUserMemoryRegion(_)));
}

fn mmap_call(step: MmapStep) -> (mapping::MmapState, MmapCall) {
    match step {
        Step::Call(state, call) => (state, call),
        Step::Done(r) => panic!("{r:?}"),
    }
}

#[test]
fn a_region_is_mapped_as_its_flags_allow() {
    for (flags, prot) in [(0, 0), (1, 1), (2, 2), (3, 3), (4, 0), (7, 3), (0xffff_fffd, 1)] {
        let region = VfioPlatformRegionInfo { index: 0, flags, size: 1, offset: 5 };
        let args = MmapArgs { len: 4096, prot, flags: 1, offset: 5 };
        let (state, call) = mmap_call(mapping::mmap_region(&region, 4096));
        assert_eq!(call, MmapCall::Mmap(args));
        let mapped = MmapAnswer::Mapped { ok: true, last_error: IoError::Os(0) };
        let (state, call) = mmap_call(mapping::resume_mmap_region(state, mapped));
        assert_eq!(call, MmapCall::Build(args));
        let built = mapping::resume_mmap_region(state, MmapAnswer::Built(Ok(())));
        assert!(matches!(built, Step::Done(Ok(()))));
    }
}

#[test]
fn a_region_at_the_top_of_the_file() {
    let region = VfioPlatformRegionInfo { index: 0, flags: 1, size: 1, offset: u64::MAX };
    match mmap_call(mapping::mmap_region(&region, 8)).1 {
        MmapCall::Mmap(args) => assert_eq!(args.offset, -1),
        other => panic!("{other:?}"),
    }
}

#[test]
fn a_region_that_cannot_be_mapped() {
    let (state, _) = mmap_call(mapping::mmap_region(&region_of(0, 3, 1), 4096));
    let failed = MmapAnswer::Mapped { ok: false, last_error: IoError::Os(22) };
    match mapping::resume_mmap_region(state, failed) {
        Step::Done(Err(PlatformDeviceError::MmapRegion(IoError::Os(22)))) => {}
        other => panic!("{other:?}"),
    }
    let failed = MmapAnswer::Built(Err("InvalidPointer".to_owned()));
    match mapping::resume_mmap_region(mapping::MmapState::Build, failed) {
        Step::Done(Err(PlatformDeviceError::MmapRegion(IoError::Other(text)))) => {
            assert_eq!(text, "InvalidPointer")
        }
        other => panic!("{other:?}"),
    }
}

fn map_call(step: MapStep) -> (MapState, MapCall) {
    match step {
        Step::Call(state, call) => (state, call),
        Step::Done(r) => panic!("{r:?}"),
    }
}

fn shown_to_guest(slot: u32, gpa: u64, len: u64) -> MapCall {
    MapCall::CreateUserMemoryRegion { slot, gpa, len, readonly: false, log_dirty_pages: false }
}

fn map_error(step: MapStep) -> PlatformDeviceError {
    match step {
        Step::Done(Err(e)) => e,
        other => panic!("{other:?}"),
    }
}

fn plan_of_three() -> Vec<PlannedRegion> {
    vec![
        PlannedRegion { region: region_of(0, 7, 100), gpa: 0x1000, len: Some(4096) },
        PlannedRegion { region: region_of(1, 3, 100), gpa: 0x2000, len: Some(4096) },
        PlannedRegion { region: region_of(2, 7, 9000), gpa: 0x3000, len: Some(12288) },
    ]
}

/// Maps the first region of the plan into slot 5 and begins with the second.
fn first_mapped() -> MapState {
    let (state, call) = map_call(mapping::map_regions(plan_of_three()));
    assert_eq!(call, MapCall::MmapRegion { region: region_of(0, 7, 100), len: 4096 });
    let (state, call) = map_call(mapping::resume_map_regions(state, MapAnswer::Region(Ok(()))));
    assert_eq!(call, MapCall::NextSlot);
    let (state, call) = map_call(mapping::resume_map_regions(state, MapAnswer::Slot(5)));
    assert_eq!(call, shown_to_guest(5, 0x1000, 4096));
    let (state, call) = map_call(mapping::resume_map_regions(state, MapAnswer::Created(Ok(()))));
    assert_eq!(call, MapCall::OpenDevMem { path: "/dev/mem" });
    state
}

/// Goes on with the third region and ends.
fn third_mapped(state: MapState, slot: u32) -> Vec<PlatformRegionMapping> {
    let (state, call) = map_call(mapping::resume_map_regions(state, MapAnswer::Region(Ok(()))));
    assert_eq!(call, MapCall::NextSlot);
    let (state, call) = map_call(mapping::resume_map_regions(state, MapAnswer::Slot(slot)));
    assert_eq!(call, shown_to_guest(slot, 0x3000, 12288));
    match mapping::resume_map_regions(state, MapAnswer::Created(Ok(()))) {
        Step::Done(Ok(mapped)) => mapped,
        other => panic!("{other:?}"),
    }
}

#[test]
fn regions_are_mapped_one_by_one() {
    let state = first_mapped();
    let (state, call) = map_call(mapping::resume_map_regions(state, MapAnswer::Opened(Ok(()))));
    let args = MmapArgs { len: 4096, prot: 3, flags: 1, offset: 0x2000 };
    assert_eq!(call, MapCall::MmapDevMem(args));
    let devmem = MapAnswer::DevMem(DevMemMapping::Mapped);
    let (state, call) = map_call(mapping::resume_map_regions(state, devmem));
    assert_eq!(call, MapCall::NextSlot);
    let (state, call) = map_call(mapping::resume_map_regions(state, MapAnswer::Slot(6)));
    assert_eq!(call, shown_to_guest(6, 0x2000, 4096));
    let (state, call) = map_call(mapping::resume_map_regions(state, MapAnswer::Created(Ok(()))));
    assert_eq!(call, MapCall::MmapRegion { region: region_of(2, 7, 9000), len: 12288 });
    assert_eq!(
        third_mapped(state, 7),
        vec![
            PlatformRegionMapping { index: 0, slot: 5, gpa: 0x1000, size: 4096 },
            PlatformRegionMapping { index: 1, slot: 6, gpa: 0x2000, size: 4096 },
            PlatformRegionMapping { index: 2, slot: 7, gpa: 0x3000, size: 12288 },
        ]
    );
}

#[test]
fn a_region_that_physical_memory_cannot_stand_in_for_is_left_out() {
    let (state, _) = map_call(mapping::resume_map_regions(first_mapped(), MapAnswer::Opened(Ok(()))));
    let devmem = MapAnswer::DevMem(DevMemMapping::Failed);
    let (state, call) = map_call(mapping::resume_map_regions(state, devmem));
    assert_eq!(call, MapCall::MmapRegion { region: region_of(2, 7, 9000), len: 12288 });
    assert_eq!(
        third_mapped(state, 6),
        vec![
            PlatformRegionMapping { index: 0, slot: 5, gpa: 0x1000, size: 4096 },
            PlatformRegionMapping { index: 2, slot: 6, gpa: 0x3000, size: 12288 },
        ]
    );
}

/// Maps a plan to its end: slots count up from 20, and physical memory stands in for the regions in
/// `devmem` only. Also returns the calls that
/// gave the guest memory, and the slots that were allotted.
fn map_all(plan: Vec<PlannedRegion>, devmem: &[u64]) -> (Vec<PlatformRegionMapping>, Vec<MapCall>, Vec<u32>) {
    let (mut given, mut slots) = (vec![], vec![]);
    let mut step = mapping::map_regions(plan);
    loop {
        let (state, call) = match step {
            Step::Call(state, call) => (state, call),
            Step::Done(r) => return (r.unwrap(), given, slots),
        };
        let answer = match call {
            MapCall::MmapRegion { .. } => MapAnswer::Region(Ok(())),
            MapCall::OpenDevMem { .. } => MapAnswer::Opened(Ok(())),
            MapCall::MmapDevMem(args) => MapAnswer::DevMem(if devmem.contains(&(args.offset as u64)) {
                DevMemMapping::Mapped
            } else {
                DevMemMapping::Failed
            }),
            MapCall::NextSlot => {
                slots.push(20 + slots.len() as u32);
                MapAnswer::Slot(slots[slots.len() - 1])
            }
            MapCall::CreateUserMemoryRegion { .. } => {
                given.push(call);
                MapAnswer::Created(Ok(()))
            }
        };
        step = mapping::resume_map_regions(state, answer);
    }
}

#[test]
fn the_guest_is_given_what_it_sees() {
    let regions = [region_of(0, 3, 4096), region_of(1, 7, 4096), region_of(2, 3, 1), region_of(3, 7, 5)];
    let map = [0x1000, 0x4000, 0x8000, 0x9000];
    let plan = || region::plan_regions(&map, &regions, 4096);
    let all: Vec<(u32, u64)> = vec![(0, 0x1000), (1, 0x4000), (2, 0x8000), (3, 0x9000)];
    let cases: [(&[u64], Vec<usize>); 4] = [
        (&[0x1000, 0x8000], vec![0, 1, 2, 3]),
        (&[0x8000], vec![1, 2, 3]),
        (&[0x1000], vec![0, 1, 3]),
        (&[], vec![1, 3]),
    ];
    for (devmem, kept) in cases {
        let (seen, given, slots) = map_all(plan(), devmem);
        let places: Vec<(u32, u64)> = seen.iter().map(|m| (m.index, m.gpa)).collect();
        let expected: Vec<(u32, u64)> = kept.iter().map(|k| all[*k]).collect();
        assert_eq!(places, expected);
        let calls: Vec<MapCall> =
            seen.iter().map(|m| shown_to_guest(m.slot, m.gpa, m.size)).collect();
        assert_eq!(given, calls);
        assert_eq!(slots, seen.iter().map(|m| m.slot).collect::<Vec<u32>>());
        assert_eq!(slots, (20..20 + kept.len() as u32).collect::<Vec<u32>>());
    }
}

#[test]
fn mapping_that_fails() {
    let start = || map_call(mapping::map_regions(plan_of_three())).0;
    let err = MapAnswer::Region(Err(PlatformDeviceError::MmapRegion(IoError::Os(12))));
    let e = map_error(mapping::resume_map_regions(start(), err));
    assert!(matches!(e, PlatformDeviceError::MmapRegion(IoError::Os(12))));

    let err = MapAnswer::Opened(Err(IoError::Os(13)));
    let e = map_error(mapping::resume_map_regions(first_mapped(), err));
    assert!(matches!(e, PlatformDeviceError::MmapRegion(IoError::Os(13))));

    let (state, _) = map_call(mapping::resume_map_regions(first_mapped(), MapAnswer::Opened(Ok(()))));
    let err = MapAnswer::DevMem(DevMemMapping::Unusable("InvalidPointer".to_owned()));
    match map_error(mapping::resume_map_regions(state, err)) {
        PlatformDeviceError::MmapRegion(IoError::Other(text)) => assert_eq!(text, "InvalidPointer"),
        other => panic!("{other:?}"),
    }

    let (state, _) = map_call(mapping::resume_map_regions(start(), MapAnswer::Region(Ok(()))));
    let (state, _) = map_call(mapping::resume_map_regions(state, MapAnswer::Slot(1)));
    let err = MapAnswer::Created(Err(HypervisorVmError { text: "full".to_owned() }));
    match map_error(mapping::resume_map_regions(state, err)) {
        PlatformDeviceError::CreateUserMemoryRegion(e) => assert_eq!(e.text, "full"),
        other => panic!("{other:?}"),
    }
}

#[test]
fn nothing_to_map() {
    match mapping::map_regions(vec![]) {
        Step::Done(Ok(mapped)) => assert!(mapped.is_empty()),
        other => panic!("{other:?}"),
    }
}
