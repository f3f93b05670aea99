//! What the host's rocket driver takes: its argument structures and its request numbers.

use vstd::prelude::*;

use crate::ioc;

verus! {

/// The letter of the DRM drivers, `d`.
pub const DRM_IOCTL_BASE: u32 = 0x64;

/// Where the requests of a single DRM driver start.
pub const DRM_COMMAND_BASE: u32 = 0x40;

/// The number of the request that closes a handle, the same for all DRM drivers.
pub const DRM_GEM_CLOSE_NR: u32 = 0x09;

/// The bytes that a `DrmRocketCreateBo` takes in C.
pub const CREATE_BO_SIZE: u32 = 24;

/// The bytes that a `DrmRocketSubmit` takes in C.
pub const SUBMIT_SIZE: u32 = 24;

/// The bytes that a `DrmRocketPrepBo` takes in C.
pub const PREP_BO_SIZE: u32 = 16;

/// The bytes that a `DrmRocketFiniBo` takes in C.
pub const FINI_BO_SIZE: u32 = 8;

/// The bytes that a `DrmGemClose` takes in C.
pub const GEM_CLOSE_SIZE: u32 = 8;

/// The bytes that a `DrmRocketTask` takes in C.
pub const TASK_SIZE: u32 = 8;

/// The bytes that a `DrmRocketJob` takes in C.
pub const JOB_SIZE: u32 = 40;

/// Asks for a buffer object. The driver fills in all fields.
#[derive(Clone, Copy, Debug, PartialEq, Eq, Structural)]
pub struct DrmRocketCreateBo {
    pub size: u32,
    pub handle: u32,
    pub dma_address: u64,
    pub offset: u64,
}

/// Waits until the device is done with a buffer object.
#[derive(Clone, Copy, Debug, PartialEq, Eq, Structural)]
pub struct DrmRocketPrepBo {
    pub handle: u32,
    pub reserved: u32,
    pub timeout_ns: i64,
}

/// Hands a buffer object back to the device.
#[derive(Clone, Copy, Debug, PartialEq, Eq, Structural)]
pub struct DrmRocketFiniBo {
    pub handle: u32,
    pub reserved: u32,
}

/// Gives a buffer object's handle up.
#[derive(Clone, Copy, Debug, PartialEq, Eq, Structural)]
pub struct DrmGemClose {
    pub handle: u32,
    pub pad: u32,
}

/// One command stream for the device.
#[derive(Clone, Copy, Debug, PartialEq, Eq, Structural)]
pub struct DrmRocketTask {
    pub regcmd: u32,
    pub regcmd_count: u32,
}

/// One job: its command streams, and the handles that it reads and writes. In C the three lists
/// are pointers, with the counts and the size of a task beside them.
#[derive(Debug)]
pub struct DrmRocketJob {
    pub tasks: Vec<DrmRocketTask>,
    pub in_bo_handles: Vec<u32>,
    pub out_bo_handles: Vec<u32>,
    pub task_count: u32,
    pub task_struct_size: u32,
    pub in_bo_handle_count: u32,
    pub out_bo_handle_count: u32,
}

/// Queues jobs.
#[derive(Debug)]
pub struct DrmRocketSubmit {
    pub jobs: Vec<DrmRocketJob>,
    pub job_count: u32,
    pub job_struct_size: u32,
    pub reserved: u64,
}

/// The lists of a job.
pub ghost struct JobView {
    pub tasks: Seq<DrmRocketTask>,
    pub ins: Seq<u32>,
    pub outs: Seq<u32>,
}

impl DrmRocketJob {
    /// The counts are those of the lists, and the size is that of a task.
    pub open spec fn counted(self) -> bool {
        &&& self.task_count == self.tasks@.len()
        &&& self.task_struct_size == TASK_SIZE
        &&& self.in_bo_handle_count == self.in_bo_handles@.len()
        &&& self.out_bo_handle_count == self.out_bo_handles@.len()
    }
}

impl View for DrmRocketJob {
    type V = JobView;

    open spec fn view(&self) -> JobView {
        JobView {
            tasks: self.tasks@,
            ins: self.in_bo_handles@,
            outs: self.out_bo_handles@,
        }
    }
}

impl DrmRocketSubmit {
    /// The count is that of the jobs, and every job's own counts are right.
    pub open spec fn counted(self) -> bool {
        &&& self.job_count == self.jobs@.len()
        &&& self.job_struct_size == JOB_SIZE
        &&& self.reserved == 0
        &&& forall|i: int| 0 <= i < self.jobs@.len() ==> (#[trigger] self.jobs@[i]).counted()
    }
}

impl View for DrmRocketSubmit {
    type V = Seq<JobView>;

    open spec fn view(&self) -> Seq<JobView> {
        self.jobs@.map_values(|job: DrmRocketJob| job@)
    }
}

/// Creates a buffer object.
#[allow(non_snake_case)]
pub fn ROCKET_CREATE_BO() -> (r: u64)
    ensures
        r == 0xc018_6440,
        r == ioc::request_number(
            (ioc::IOC_READ + ioc::IOC_WRITE) as u32,
            DRM_IOCTL_BASE,
            DRM_COMMAND_BASE,
            CREATE_BO_SIZE,
        ),
{
    ioc::request(ioc::IOC_READ + ioc::IOC_WRITE, DRM_IOCTL_BASE, DRM_COMMAND_BASE, CREATE_BO_SIZE)
}

/// Queues jobs.
#[allow(non_snake_case)]
pub fn ROCKET_SUBMIT() -> (r: u64)
    ensures
        r == 0x4018_6441,
        r == ioc::request_number(
            ioc::IOC_WRITE,
            DRM_IOCTL_BASE,
            (DRM_COMMAND_BASE + 1) as u32,
            SUBMIT_SIZE,
        ),
{
    ioc::request(ioc::IOC_WRITE, DRM_IOCTL_BASE, DRM_COMMAND_BASE + 1, SUBMIT_SIZE)
}

/// Waits for a buffer object.
#[allow(non_snake_case)]
pub fn ROCKET_PREP_BO() -> (r: u64)
    ensures
        r == 0x4010_6442,
        r == ioc::request_number(
            ioc::IOC_WRITE,
            DRM_IOCTL_BASE,
            (DRM_COMMAND_BASE + 2) as u32,
            PREP_BO_SIZE,
        ),
{
    ioc::request(ioc::IOC_WRITE, DRM_IOCTL_BASE, DRM_COMMAND_BASE + 2, PREP_BO_SIZE)
}

/// Hands a buffer object back.
#[allow(non_snake_case)]
pub fn ROCKET_FINI_BO() -> (r: u64)
    ensures
        r == 0x4008_6443,
        r == ioc::request_number(
            ioc::IOC_WRITE,
            DRM_IOCTL_BASE,
            (DRM_COMMAND_BASE + 3) as u32,
            FINI_BO_SIZE,
        ),
{
    ioc::request(ioc::IOC_WRITE, DRM_IOCTL_BASE, DRM_COMMAND_BASE + 3, FINI_BO_SIZE)
}

/// Closes a handle.
#[allow(non_snake_case)]
pub fn DRM_GEM_CLOSE() -> (r: u64)
    ensures
        r == 0x4008_6409,
        r == ioc::request_number(
            ioc::IOC_WRITE,
            DRM_IOCTL_BASE,
            DRM_GEM_CLOSE_NR,
            GEM_CLOSE_SIZE,
        ),
{
    ioc::request(ioc::IOC_WRITE, DRM_IOCTL_BASE, DRM_GEM_CLOSE_NR, GEM_CLOSE_SIZE)
}

} // verus!
