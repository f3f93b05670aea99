//! Opening a VFIO group, and finding and opening the device in it.

use vstd::prelude::*;
use vstd::pervasive::unreached;
use vstd::utf8::{decode_utf8, encode_utf8, valid_utf8};

use crate::path;
use crate::path::HostPath;
use crate::platform_error::{IoError, PlatformDeviceError, PlatformDeviceErrorView};
use crate::step::Step;
use crate::text;
use crate::vfio::{
    VfioGroupStatus, GROUP_STATUS_SIZE, VFIO_GROUP_FLAGS_VIABLE, VFIO_NOIOMMU_IOMMU,
};

verus! {

/// Where containers are made.
pub const CONTAINER_PATH: &'static str = "/dev/vfio/vfio";

/// Work for opening a group.
#[derive(Clone, Copy, Debug, PartialEq, Eq)]
pub enum GroupCall {
    /// Open a fresh container, at that path, for reading and writing.
    OpenContainer { path: &'static str },
    /// Open the group, at the path that the state holds, for reading and writing.
    OpenGroup,
    /// Ask for the group's status.
    GetStatus(VfioGroupStatus),
    /// Put the group into the container.
    SetContainer,
    /// Set the container's IOMMU model.
    SetIommu { model: u64 },
}

/// What came of a call. `last_error` is the error of a driver call that failed.
#[derive(Debug)]
pub enum GroupAnswer {
    /// Whether the file was opened.
    Opened(Result<(), IoError>),
    /// The driver returned `ret` and left `flags`.
    Status { ret: i32, flags: u32, last_error: IoError },
    /// The driver returned `ret`.
    Returned { ret: i32, last_error: IoError },
}

/// The call that is outstanding.
#[derive(Clone, Copy, Debug, PartialEq, Eq, Structural)]
pub enum GroupStage {
    OpenContainer,
    OpenGroup,
    GetStatus,
    SetContainer,
    SetIommu,
}

/// Where opening a group stands.
#[derive(Debug)]
pub struct GroupState {
    pub path: HostPath,
    pub stage: GroupStage,
}

/// What to do next, or whether the group is open and in a container without an IOMMU.
pub type GroupStep = Step<GroupState, GroupCall, Result<(), PlatformDeviceError>>;

/// The answer is to the call that is outstanding.
pub open spec fn group_answers(state: GroupState, answer: GroupAnswer) -> bool {
    match state.stage {
        GroupStage::OpenContainer => answer is Opened,
        GroupStage::OpenGroup => answer is Opened,
        GroupStage::GetStatus => answer is Status,
        GroupStage::SetContainer => answer is Returned,
        GroupStage::SetIommu => answer is Returned,
    }
}

/// What to do after an answer came in.
pub open spec fn group_next(state: GroupState, answer: GroupAnswer) -> GroupStep {
    match (state.stage, answer) {
        (GroupStage::OpenContainer, GroupAnswer::Opened(Ok(_))) => Step::Call(
            GroupState { path: state.path, stage: GroupStage::OpenGroup },
            GroupCall::OpenGroup,
        ),
        (GroupStage::OpenContainer, GroupAnswer::Opened(Err(e))) => Step::Done(
            Err(PlatformDeviceError::OpenContainer(e)),
        ),
        (GroupStage::OpenGroup, GroupAnswer::Opened(Ok(_))) => Step::Call(
            GroupState { path: state.path, stage: GroupStage::GetStatus },
            GroupCall::GetStatus(VfioGroupStatus { argsz: GROUP_STATUS_SIZE, flags: 0 }),
        ),
        (GroupStage::OpenGroup, GroupAnswer::Opened(Err(e))) => Step::Done(
            Err(PlatformDeviceError::OpenGroup(state.path, e)),
        ),
        (GroupStage::GetStatus, GroupAnswer::Status { ret, flags, last_error }) => if ret < 0 {
            Step::Done(Err(PlatformDeviceError::GroupStatus(last_error)))
        } else if flags & VFIO_GROUP_FLAGS_VIABLE == 0 {
            Step::Done(Err(PlatformDeviceError::GroupNotViable))
        } else {
            Step::Call(
                GroupState { path: state.path, stage: GroupStage::SetContainer },
                GroupCall::SetContainer,
            )
        },
        (GroupStage::SetContainer, GroupAnswer::Returned { ret, last_error }) => if ret < 0 {
            Step::Done(Err(PlatformDeviceError::SetContainer(last_error)))
        } else {
            Step::Call(
                GroupState { path: state.path, stage: GroupStage::SetIommu },
                GroupCall::SetIommu { model: VFIO_NOIOMMU_IOMMU },
            )
        },
        (GroupStage::SetIommu, GroupAnswer::Returned { ret, last_error }) => if ret < 0 {
            Step::Done(Err(PlatformDeviceError::SetNoiommu(last_error)))
        } else {
            Step::Done(Ok(()))
        },
        _ => arbitrary(),
    }
}

/// Starts to open a group.
pub fn open_group(group_path: HostPath) -> (step: GroupStep)
    ensures
        step == GroupStep::Call(
            GroupState { path: group_path, stage: GroupStage::OpenContainer },
            GroupCall::OpenContainer { path: CONTAINER_PATH },
        ),
{
    Step::Call(
        GroupState { path: group_path, stage: GroupStage::OpenContainer },
        GroupCall::OpenContainer { path: CONTAINER_PATH },
    )
}

/// Goes on opening a group.
pub fn resume_open_group(state: GroupState, answer: GroupAnswer) -> (step: GroupStep)
    requires
        group_answers(state, answer),
    ensures
        step == group_next(state, answer),
{
    let GroupState { path, stage } = state;
    match (stage, answer) {
        (GroupStage::OpenContainer, GroupAnswer::Opened(Ok(_))) => Step::Call(
            GroupState { path, stage: GroupStage::OpenGroup },
            GroupCall::OpenGroup,
        ),
        (GroupStage::OpenContainer, GroupAnswer::Opened(Err(e))) => Step::Done(
            Err(PlatformDeviceError::OpenContainer(e)),
        ),
        (GroupStage::OpenGroup, GroupAnswer::Opened(Ok(_))) => Step::Call(
            GroupState { path, stage: GroupStage::GetStatus },
            GroupCall::GetStatus(VfioGroupStatus { argsz: GROUP_STATUS_SIZE, flags: 0 }),
        ),
        (GroupStage::OpenGroup, GroupAnswer::Opened(Err(e))) => Step::Done(
            Err(PlatformDeviceError::OpenGroup(path, e)),
        ),
        (GroupStage::GetStatus, GroupAnswer::Status { ret, flags, last_error }) => if ret < 0 {
            Step::Done(Err(PlatformDeviceError::GroupStatus(last_error)))
        } else if flags & VFIO_GROUP_FLAGS_VIABLE == 0 {
            Step::Done(Err(PlatformDeviceError::GroupNotViable))
        } else {
            Step::Call(GroupState { path, stage: GroupStage::SetContainer }, GroupCall::SetContainer)
        },
        (GroupStage::SetContainer, GroupAnswer::Returned { ret, last_error }) => if ret < 0 {
            Step::Done(Err(PlatformDeviceError::SetContainer(last_error)))
        } else {
            Step::Call(
                GroupState { path, stage: GroupStage::SetIommu },
                GroupCall::SetIommu { model: VFIO_NOIOMMU_IOMMU },
            )
        },
        (GroupStage::SetIommu, GroupAnswer::Returned { ret, last_error }) => if ret < 0 {
            Step::Done(Err(PlatformDeviceError::SetNoiommu(last_error)))
        } else {
            Step::Done(Ok(()))
        },
        _ => unreached(),
    }
}

/// The name of a file as text; none if the path has none or it is no text.
pub open spec fn name_text(name: Option<Seq<u8>>) -> Seq<char> {
    match name {
        Some(bytes) => if valid_utf8(bytes) {
            decode_utf8(bytes)
        } else {
            Seq::empty()
        },
        None => Seq::empty(),
    }
}

/// Where the kernel lists the devices of the group that the path names.
pub open spec fn devices_dir_of(group_path: Seq<u8>) -> Seq<char> {
    "/sys/kernel/iommu_groups/"@ + text::without_prefix(
        name_text(path::file_name(group_path)),
        "noiommu-"@,
    ) + "/devices"@
}

/// The devices of the group that a file names are listed under the file's name, or, for a group
/// without an IOMMU, under what follows `noiommu-` in it.
pub proof fn law_devices_dir(dir: Seq<u8>, name: Seq<char>, id: Seq<char>)
    requires
        encode_utf8(name).len() > 0,
        !encode_utf8(name).contains(path::SEPARATOR),
        encode_utf8(name) != seq![path::DOT],
        encode_utf8(name) != seq![path::DOT, path::DOT],
    ensures
        ({
            let file = dir.push(path::SEPARATOR) + encode_utf8(name);
            let listed = |group: Seq<char>|
                "/sys/kernel/iommu_groups/"@ + group + "/devices"@;
            &&& name == "noiommu-"@ + id ==> devices_dir_of(file) == listed(id)
            &&& !"noiommu-"@.is_prefix_of(name) ==> devices_dir_of(file) == listed(name)
        }),
{
    path::law_file_name_of_entry(dir, encode_utf8(name));
    vstd::utf8::encode_utf8_valid_utf8(name);
    vstd::utf8::encode_utf8_decode_utf8(name);
    let prefix = "noiommu-"@;
    if name == prefix + id {
        assert(prefix =~= name.subrange(0, prefix.len() as int));
        assert(name.skip(prefix.len() as int) =~= id);
    }
}

/// Finds where the kernel lists the devices of a group.
pub fn devices_dir(group_path: &HostPath) -> (dir: String)
    ensures
        dir@ == devices_dir_of(group_path@),
{
    let group_name: &str = match group_path.file_name() {
        Some(name) => match text::utf8_text(name) {
            Some(s) => s,
            None => "",
        },
        None => "",
    };
    proof {
        reveal_strlit("");
    }
    assert(group_name@ =~= name_text(path::file_name(group_path@)));
    let group_id = text::strip_prefix(group_name, "noiommu-");
    let mut dir: String = "/sys/kernel/iommu_groups/".to_owned();
    dir.append(group_id);
    dir.append("/devices");
    dir
}

/// The names of the entries that could be read.
pub open spec fn names(entries: Seq<Result<String, IoError>>) -> Seq<Seq<char>>
    decreases entries.len(),
{
    if entries.len() == 0 {
        Seq::empty()
    } else {
        match entries.last() {
            Ok(name) => names(entries.drop_last()).push(name@),
            Err(_) => names(entries.drop_last()),
        }
    }
}

/// Picks the device out of what the group's directory lists: the one entry, if there is one only.
/// Entries that could not be read do not count.
pub fn device_name_from_sysfs(
    devices_dir: String,
    listing: Result<Vec<Result<String, IoError>>, String>,
) -> (r: Result<String, PlatformDeviceError>)
    ensures
        match (listing, r) {
            (Err(text), Err(e)) => e@ == PlatformDeviceErrorView::ResolveDeviceName(
                devices_dir@,
                text@,
            ),
            (Err(_), Ok(_)) => false,
            (Ok(entries), Ok(name)) => names(entries@) =~= seq![name@],
            (Ok(entries), Err(e)) => names(entries@).len() != 1 && e@
                == PlatformDeviceErrorView::ResolveDeviceName(
                devices_dir@,
                "expected exactly one device in group"@,
            ),
        },
{
    let entries = match listing {
        Ok(entries) => entries,
        Err(text) => {
            return Err(PlatformDeviceError::ResolveDeviceName(devices_dir, text));
        },
    };
    let mut count: usize = 0;
    let mut found: String = String::new();
    let mut i: usize = 0;
    while i < entries.len()
        invariant
            count <= i <= entries@.len(),
            count == names(entries@.take(i as int)).len(),
            count == 1 ==> names(entries@.take(i as int))[0] == found@,
        decreases entries.len() - i,
    {
        assert(entries@.take(i + 1).drop_last() =~= entries@.take(i as int));
        match &entries[i] {
            Ok(name) => {
                count = count + 1;
                found = name.clone();
            },
            Err(_) => {},
        }
        i = i + 1;
    }
    assert(entries@.take(i as int) =~= entries@);
    if count == 1 {
        Ok(found)
    } else {
        Err(
            PlatformDeviceError::ResolveDeviceName(
                devices_dir,
                "expected exactly one device in group".to_owned(),
            ),
        )
    }
}

/// A device's name as the driver takes it: its bytes, and a NUL to end them. There is none for a name
/// that holds a NUL itself.
pub fn device_name_arg(name: &str) -> (r: Option<Vec<u8>>)
    ensures
        match r {
            Some(v) => v@ == encode_utf8(name@).push(0) && !encode_utf8(name@).contains(0),
            None => encode_utf8(name@).contains(0),
        },
{
    let bytes = name.as_bytes();
    let mut v: Vec<u8> = Vec::new();
    let mut i: usize = 0;
    while i < bytes.len()
        invariant
            i <= bytes@.len(),
            bytes@ == encode_utf8(name@),
            v@ == bytes@.take(i as int),
            forall|j: int| 0 <= j < i ==> bytes@[j] != 0,
        decreases bytes.len() - i,
    {
        if bytes[i] == 0 {
            assert(bytes@[i as int] == 0);
            return None;
        }
        v.push(bytes[i]);
        i = i + 1;
    }
    assert(bytes@.take(i as int) =~= bytes@);
    v.push(0);
    Some(v)
}

/// Work for opening a device.
#[derive(Debug)]
pub enum DeviceFdCall {
    /// Ask the driver for the device of that name. The last byte is the NUL that ends the name.
    GetDeviceFd { name: Vec<u8> },
}

/// What a `DeviceFdCall` says.
pub ghost enum DeviceFdCallView {
    GetDeviceFd { name: Seq<u8> },
}

impl View for DeviceFdCall {
    type V = DeviceFdCallView;

    open spec fn view(&self) -> DeviceFdCallView {
        match *self {
            DeviceFdCall::GetDeviceFd { name } => DeviceFdCallView::GetDeviceFd { name: name@ },
        }
    }
}

/// Starts to open a device of a group: the driver is called once.
pub fn get_device_fd(device_name: &str) -> (call: DeviceFdCall)
    requires
        !encode_utf8(device_name@).contains(0),
    ensures
        call@ == (DeviceFdCallView::GetDeviceFd { name: encode_utf8(device_name@).push(0) }),
{
    match device_name_arg(device_name) {
        Some(name) => DeviceFdCall::GetDeviceFd { name },
        None => unreached(),
    }
}

/// Takes what the driver returned: the device's descriptor, or a negative number and the error that
/// it left.
pub fn resume_device_fd(ret: i32, last_error: IoError) -> (r: Result<i32, PlatformDeviceError>)
    ensures
        r == if ret < 0 {
            Err(PlatformDeviceError::GetDeviceFd(last_error))
        } else {
            Ok(ret)
        },
{
    if ret < 0 {
        Err(PlatformDeviceError::GetDeviceFd(last_error))
    } else {
        Ok(ret)
    }
}

/// Entries that could be read count, in order, and others do not.
pub proof fn law_entries_that_count(
    entries: Seq<Result<String, IoError>>,
    name: String,
    e: IoError,
)
    ensures
        names(Seq::empty()) == Seq::<Seq<char>>::empty(),
        names(entries.push(Ok(name))) == names(entries).push(name@),
        names(entries.push(Err(e))) == names(entries),
{
    assert(entries.push(Ok(name)).drop_last() =~= entries);
    assert(entries.push(Err(e)).drop_last() =~= entries);
}

/// A path without a name, or with one that is no text, names no group: what is listed is the
/// directory of all groups with nothing in between.
pub proof fn law_no_group_name(group_path: Seq<u8>)
    requires
        path::file_name(group_path) matches Some(name) ==> !valid_utf8(name),
    ensures
        devices_dir_of(group_path) == "/sys/kernel/iommu_groups/"@ + "/devices"@,
{
    let none = Seq::<char>::empty();
    let prefix = "noiommu-"@;
    assert(none.skip(0) =~= none);
    if prefix.is_prefix_of(none) {
        assert(prefix.len() == 0);
    }
    assert("/sys/kernel/iommu_groups/"@ + none =~= "/sys/kernel/iommu_groups/"@);
}

/// Only the name at the end of a group's path matters.
pub proof fn law_only_the_name_matters(one: Seq<u8>, other: Seq<u8>)
    requires
        path::file_name(one) == path::file_name(other),
    ensures
        devices_dir_of(one) == devices_dir_of(other),
{
}

} // verus!
