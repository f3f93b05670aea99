//! What the kernel's VFIO takes: its constants, argument structures and request numbers.

use vstd::prelude::*;

use crate::ioc;

verus! {

/// The letter of VFIO, `;`.
pub const VFIO_TYPE: u32 = 0x3b;

/// Where VFIO's requests start.
pub const VFIO_BASE: u32 = 100;

/// The group can be used: none of its devices is held by another driver.
pub const VFIO_GROUP_FLAGS_VIABLE: u32 = 1;

/// The container's model without an IOMMU.
pub const VFIO_NOIOMMU_IOMMU: u64 = 8;

/// The region can be read.
pub const VFIO_REGION_INFO_FLAG_READ: u32 = 1;

/// The region can be written.
pub const VFIO_REGION_INFO_FLAG_WRITE: u32 = 2;

/// The region can be mapped.
pub const VFIO_REGION_INFO_FLAG_MMAP: u32 = 4;

/// The interrupt can be signalled through an eventfd.
pub const VFIO_IRQ_INFO_EVENTFD: u32 = 1;

/// The data behind the header is an eventfd.
pub const VFIO_IRQ_SET_DATA_EVENTFD: u32 = 4;

/// The eventfd unmasks the interrupt.
pub const VFIO_IRQ_SET_ACTION_UNMASK: u32 = 16;

/// The eventfd is signalled by the interrupt.
pub const VFIO_IRQ_SET_ACTION_TRIGGER: u32 = 32;

/// The bytes that a `VfioGroupStatus` takes in C.
pub const GROUP_STATUS_SIZE: u32 = 8;

/// The bytes that a `VfioDeviceInfo` takes in C.
pub const DEVICE_INFO_SIZE: u32 = 24;

/// The bytes that a `VfioRegionInfo` takes in C.
pub const REGION_INFO_SIZE: u32 = 32;

/// The bytes that a `VfioIrqInfo` takes in C.
pub const IRQ_INFO_SIZE: u32 = 16;

/// The bytes that a `VfioIrqSet` takes in C ahead of its data.
pub const IRQ_SET_SIZE: u32 = 20;

/// Asks for a group's status.
#[derive(Clone, Copy, Debug, PartialEq, Eq, Structural)]
pub struct VfioGroupStatus {
    pub argsz: u32,
    pub flags: u32,
}

/// Asks how many regions and interrupts a device has.
#[derive(Clone, Copy, Debug, PartialEq, Eq, Structural)]
pub struct VfioDeviceInfo {
    pub argsz: u32,
    pub flags: u32,
    pub num_regions: u32,
    pub num_irqs: u32,
    pub cap_offset: u32,
    pub pad: u32,
}

/// Asks about a region of a device.
#[derive(Clone, Copy, Debug, PartialEq, Eq, Structural)]
pub struct VfioRegionInfo {
    pub argsz: u32,
    pub flags: u32,
    pub index: u32,
    pub cap_offset: u32,
    pub size: u64,
    pub offset: u64,
}

/// Asks about an interrupt of a device.
#[derive(Clone, Copy, Debug, PartialEq, Eq, Structural)]
pub struct VfioIrqInfo {
    pub argsz: u32,
    pub flags: u32,
    pub index: u32,
    pub count: u32,
}

/// Sets an interrupt's action, with the one word of data that follows the header.
#[derive(Clone, Copy, Debug, PartialEq, Eq, Structural)]
pub struct VfioIrqSet {
    pub argsz: u32,
    pub flags: u32,
    pub index: u32,
    pub start: u32,
    pub count: u32,
    pub eventfd: u32,
}

/// The number of VFIO's request `nr`, which carries no size.
pub open spec fn vfio_request_number(nr: int) -> int {
    ioc::request_number(ioc::IOC_NONE, VFIO_TYPE, (VFIO_BASE + nr) as u32, 0)
}

/// The number of VFIO's request `nr`.
fn vfio_request(nr: u32) -> (r: u64)
    requires
        nr < 0x100 - VFIO_BASE,
    ensures
        r == vfio_request_number(nr as int),
{
    ioc::request(ioc::IOC_NONE, VFIO_TYPE, VFIO_BASE + nr, 0)
}

/// Sets a container's IOMMU model.
#[allow(non_snake_case)]
pub fn VFIO_SET_IOMMU() -> (r: u64)
    ensures
        r == vfio_request_number(2),
        r == 0x3b66,
{
    vfio_request(2)
}

/// Asks for a group's status.
#[allow(non_snake_case)]
pub fn VFIO_GROUP_GET_STATUS() -> (r: u64)
    ensures
        r == vfio_request_number(3),
        r == 0x3b67,
{
    vfio_request(3)
}

/// Puts a group into a container.
#[allow(non_snake_case)]
pub fn VFIO_GROUP_SET_CONTAINER() -> (r: u64)
    ensures
        r == vfio_request_number(4),
        r == 0x3b68,
{
    vfio_request(4)
}

/// Opens a device of a group.
#[allow(non_snake_case)]
pub fn VFIO_GROUP_GET_DEVICE_FD() -> (r: u64)
    ensures
        r == vfio_request_number(6),
        r == 0x3b6a,
{
    vfio_request(6)
}

/// Asks how many regions and interrupts a device has.
#[allow(non_snake_case)]
pub fn VFIO_DEVICE_GET_INFO() -> (r: u64)
    ensures
        r == vfio_request_number(7),
        r == 0x3b6b,
{
    vfio_request(7)
}

/// Asks about a region.
#[allow(non_snake_case)]
pub fn VFIO_DEVICE_GET_REGION_INFO() -> (r: u64)
    ensures
        r == vfio_request_number(8),
        r == 0x3b6c,
{
    vfio_request(8)
}

/// Asks about an interrupt.
#[allow(non_snake_case)]
pub fn VFIO_DEVICE_GET_IRQ_INFO() -> (r: u64)
    ensures
        r == vfio_request_number(9),
        r == 0x3b6d,
{
    vfio_request(9)
}

/// Sets an interrupt's action.
#[allow(non_snake_case)]
pub fn VFIO_DEVICE_SET_IRQS() -> (r: u64)
    ensures
        r == vfio_request_number(10),
        r == 0x3b6e,
{
    vfio_request(10)
}

} // verus!
