//! Why a platform device could not be set up.

use vstd::prelude::*;

use crate::path::HostPath;

verus! {

/// An error of the host: one with a number, or one with a text.
#[derive(Debug)]
pub enum IoError {
    Os(i32),
    Other(String),
}

/// What an `IoError` says.
pub ghost enum IoErrorView {
    Os(i32),
    Other(Seq<char>),
}

impl View for IoError {
    type V = IoErrorView;

    open spec fn view(&self) -> IoErrorView {
        match *self {
            IoError::Os(e) => IoErrorView::Os(e),
            IoError::Other(text) => IoErrorView::Other(text@),
        }
    }
}

impl IoError {
    /// An error with a text.
    pub fn other(text: &str) -> (e: IoError)
        ensures
            e@ == IoErrorView::Other(text@),
    {
        IoError::Other(text.to_owned())
    }

    /// The number, if the error has one.
    pub fn raw_os_error(&self) -> (r: Option<i32>)
        ensures
            r == match self@ {
                IoErrorView::Os(e) => Some(e),
                IoErrorView::Other(_) => None,
            },
    {
        match self {
            IoError::Os(e) => Some(*e),
            IoError::Other(_) => None,
        }
    }
}

/// An error of the hypervisor, as its text.
#[derive(Debug)]
pub struct HypervisorVmError {
    pub text: String,
}

/// Why a platform device could not be set up.
#[derive(Debug)]
pub enum PlatformDeviceError {
    OpenGroup(HostPath, IoError),
    OpenContainer(IoError),
    GroupStatus(IoError),
    GroupNotViable,
    SetContainer(IoError),
    SetNoiommu(IoError),
    ResolveDeviceName(String, String),
    GetDeviceFd(IoError),
    GetDeviceInfo(IoError),
    GetRegionInfo(IoError),
    MmapRegion(IoError),
    CreateUserMemoryRegion(HypervisorVmError),
    GetIrqInfo(IoError),
    SetIrqs(IoError),
    CreateEventFd(IoError),
    RegisterIrqfd(HypervisorVmError),
}

/// What a `PlatformDeviceError` says.
pub ghost enum PlatformDeviceErrorView {
    OpenGroup(Seq<u8>, IoErrorView),
    OpenContainer(IoErrorView),
    GroupStatus(IoErrorView),
    GroupNotViable,
    SetContainer(IoErrorView),
    SetNoiommu(IoErrorView),
    ResolveDeviceName(Seq<char>, Seq<char>),
    GetDeviceFd(IoErrorView),
    GetDeviceInfo(IoErrorView),
    GetRegionInfo(IoErrorView),
    MmapRegion(IoErrorView),
    CreateUserMemoryRegion(Seq<char>),
    GetIrqInfo(IoErrorView),
    SetIrqs(IoErrorView),
    CreateEventFd(IoErrorView),
    RegisterIrqfd(Seq<char>),
}

impl View for PlatformDeviceError {
    type V = PlatformDeviceErrorView;

    open spec fn view(&self) -> PlatformDeviceErrorView {
        match *self {
            PlatformDeviceError::OpenGroup(p, e) => PlatformDeviceErrorView::OpenGroup(p@, e@),
            PlatformDeviceError::OpenContainer(e) => PlatformDeviceErrorView::OpenContainer(e@),
            PlatformDeviceError::GroupStatus(e) => PlatformDeviceErrorView::GroupStatus(e@),
            PlatformDeviceError::GroupNotViable => PlatformDeviceErrorView::GroupNotViable,
            PlatformDeviceError::SetContainer(e) => PlatformDeviceErrorView::SetContainer(e@),
            PlatformDeviceError::SetNoiommu(e) => PlatformDeviceErrorView::SetNoiommu(e@),
            PlatformDeviceError::ResolveDeviceName(dir, text) =>
                PlatformDeviceErrorView::ResolveDeviceName(dir@, text@),
            PlatformDeviceError::GetDeviceFd(e) => PlatformDeviceErrorView::GetDeviceFd(e@),
            PlatformDeviceError::GetDeviceInfo(e) => PlatformDeviceErrorView::GetDeviceInfo(e@),
            PlatformDeviceError::GetRegionInfo(e) => PlatformDeviceErrorView::GetRegionInfo(e@),
            PlatformDeviceError::MmapRegion(e) => PlatformDeviceErrorView::MmapRegion(e@),
            PlatformDeviceError::CreateUserMemoryRegion(e) =>
                PlatformDeviceErrorView::CreateUserMemoryRegion(e.text@),
            PlatformDeviceError::GetIrqInfo(e) => PlatformDeviceErrorView::GetIrqInfo(e@),
            PlatformDeviceError::SetIrqs(e) => PlatformDeviceErrorView::SetIrqs(e@),
            PlatformDeviceError::CreateEventFd(e) => PlatformDeviceErrorView::CreateEventFd(e@),
            PlatformDeviceError::RegisterIrqfd(e) => PlatformDeviceErrorView::RegisterIrqfd(
                e.text@,
            ),
        }
    }
}

} // verus!
