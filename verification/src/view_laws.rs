//! Views hide nothing: whatever a contract says of a view holds of the value itself, field by field.

use vstd::prelude::*;

use crate::bo::{HostBo, PageCopy};
use crate::device_info;
use crate::device_info::{
    DeviceInfo, InfoCall, InfoState, InfoStateView, InfoStep, InfoStepView, VfioPlatformIrqInfo,
    VfioPlatformRegionInfo,
};
use crate::group::{DeviceFdCall, DeviceFdCallView};
use crate::irq;
use crate::irq::{IrqCall, IrqState, IrqStep, IrqStepView};
use crate::mapping;
use crate::mapping::{
    MapCall, MapState, MapStep, MapStepView, MmapArgs, PlatformRegionMapping,
};
use crate::npu;
use crate::npu::{
    ActivateCall, ActivateCallView, ActivateError, ActivateStage, ActivateStep, ActivateStepView,
    EventCall,
};
use crate::path::HostPath;
use crate::platform_device;
use crate::platform_device::{
    PlatformDeviceConfig, SetupCall, SetupCallView, SetupStage, SetupStageView, SetupState, SetupStep,
    SetupStepView, VfioPlatformDevice,
};
use crate::platform_error::{
    HypervisorVmError, IoError, IoErrorView, PlatformDeviceError, PlatformDeviceErrorView,
};
use crate::probe;
use crate::probe::{ProbeCall, ProbeState, ProbeStep, ProbeStepView};
use crate::queue;
use crate::queue::{Error, QueueCall, QueueCallView, QueueState, QueueStep};
use crate::region::PlannedRegion;
use crate::request;
use crate::request::{HostCall, HostCallView, NpuEpollHandler, Pending, PendingView, StepView};
use crate::rocket::{
    DrmGemClose, DrmRocketCreateBo, DrmRocketFiniBo, DrmRocketPrepBo, DrmRocketSubmit,
};
use crate::step::Step;
use crate::wire;
use crate::wire::{Request, RequestView};
use crate::worker;
use crate::worker::{
    Handled, WorkerCall, WorkerCallView, WorkerState, WorkerStateView, WorkerStep, WorkerStepView,
};

verus! {

/// Host calls say what they carry.
pub proof fn law_host_calls(
    create: DrmRocketCreateBo,
    mmap: MmapArgs,
    close: DrmGemClose,
    va: usize,
    size: usize,
    copy: PageCopy,
    fini: DrmRocketFiniBo,
    prep: DrmRocketPrepBo,
    submit: DrmRocketSubmit,
)
    ensures
        HostCall::CreateBo(create)@ == HostCallView::CreateBo(create),
        HostCall::Mmap(mmap)@ == HostCallView::Mmap(mmap),
        HostCall::Close(close)@ == HostCallView::Close(close),
        (HostCall::Unmap { va, size })@ == (HostCallView::Unmap { va, size }),
        HostCall::CopyIn(copy)@ == HostCallView::CopyIn(copy),
        HostCall::CopyOut(copy)@ == HostCallView::CopyOut(copy),
        HostCall::FiniBo(fini)@ == HostCallView::FiniBo(fini),
        HostCall::PrepBo(prep)@ == HostCallView::PrepBo(prep),
        HostCall::Submit(submit)@ == HostCallView::Submit(submit@),
{
}

/// Where a request stands says what it keeps.
pub proof fn law_pending_requests(
    size: u32,
    gid: u32,
    gpas: Vec<u64>,
    args: DrmRocketCreateBo,
    va: usize,
    len: usize,
    reply: Vec<u8>,
    page: usize,
    pending: Pending,
    call: HostCall,
)
    ensures
        (Pending::Create { size, gid, gpas })@ == (PendingView::Create { size, gid, gpas: gpas@ }),
        (Pending::Mmap { size, gid, gpas, args })@ == (PendingView::Mmap {
            size,
            gid,
            gpas: gpas@,
            args,
        }),
        Pending::Discard@ == PendingView::Discard,
        (Pending::Destroy { va, len })@ == (PendingView::Destroy { va, len }),
        (Pending::Release { reply })@ == (PendingView::Release { reply: reply@ }),
        (Pending::CopyIn { gid, page })@ == (PendingView::CopyIn { gid, page: page as int }),
        Pending::Fini@ == PendingView::Fini,
        (Pending::Prep { gid })@ == (PendingView::Prep { gid }),
        (Pending::CopyOut { gid, page })@ == (PendingView::CopyOut { gid, page: page as int }),
        Pending::Submit@ == PendingView::Submit,
        request::Step::Call(pending, call)@ == StepView::Call(pending@, call@),
        request::Step::Reply(reply)@ == StepView::Reply(reply@),
{
}

/// Buffer objects, requests and paths say what they hold.
pub proof fn law_plain_values(
    bo: HostBo,
    size: u32,
    gid: u32,
    gpas: Vec<u64>,
    job_count: u32,
    timeout_ns: i64,
    r: Request,
    path: HostPath,
    name: Vec<u8>,
)
    ensures
        bo@.handle == bo.handle && bo@.va == bo.va && bo@.size == bo.size && bo@.mapped == bo.mapped
            && bo@.gpas == bo.gpas@,
        (Request::CreateBo { size, gid, gpas })@ == (RequestView::CreateBo {
            size,
            gid,
            gpas: gpas@,
        }),
        (Request::DestroyBo { gid })@ == (RequestView::DestroyBo { gid }),
        (Request::Submit { job_count })@ == (RequestView::Submit { job_count }),
        (Request::PrepBo { gid, timeout_ns })@ == (RequestView::PrepBo { gid, timeout_ns }),
        (Request::FiniBo { gid })@ == (RequestView::FiniBo { gid }),
        wire::view_of(Some(r)) == Some(r@),
        wire::view_of(None) is None,
        path@ == path.bytes@,
        (DeviceFdCall::GetDeviceFd { name })@ == (DeviceFdCallView::GetDeviceFd { name: name@ }),
{
}

/// Work on the queue says what it carries, and a step on the queue is its state and its call, or its
/// result.
pub proof fn law_queue_calls<Q, M>(
    addr: u64,
    len: u32,
    bytes: Vec<u8>,
    state: QueueState,
    call: QueueCall,
    r: Result<bool, Error<Q, M>>,
)
    ensures
        QueueCall::Pop@ == QueueCallView::Pop,
        (QueueCall::ReadHeader { addr })@ == (QueueCallView::ReadHeader { addr }),
        (QueueCall::ReadRequest { addr, len })@ == (QueueCallView::ReadRequest { addr, len }),
        (QueueCall::Handle { req: bytes })@ == (QueueCallView::Handle { req: bytes@ }),
        (QueueCall::WriteReply { addr, reply: bytes })@ == (QueueCallView::WriteReply {
            addr,
            reply: bytes@,
        }),
        (QueueCall::AddUsed { len })@ == (QueueCallView::AddUsed { len }),
        queue::step_view(QueueStep::<Q, M>::Call(state, call)) == Step::<
            QueueState,
            QueueCallView,
            Result<bool, Error<Q, M>>,
        >::Call(state, call@),
        queue::step_view(QueueStep::<Q, M>::Done(r)) == Step::<
            QueueState,
            QueueCallView,
            Result<bool, Error<Q, M>>,
        >::Done(r),
{
}

/// Work of the worker says what it carries, and a step of the worker is its state and its call, or its
/// result.
pub proof fn law_worker_calls<E, Q, M, S>(
    event: EventCall,
    call: QueueCall,
    host: HostCall,
    state: QueueState,
    pending: Pending,
    ws: WorkerState,
    wc: WorkerCall,
    r: Handled<E, Q, M, S>,
)
    ensures
        WorkerCall::Event(event)@ == WorkerCallView::Event(event),
        WorkerCall::Queue(call)@ == WorkerCallView::Queue(call@),
        WorkerCall::Host(host)@ == WorkerCallView::Host(host@),
        WorkerState::Event(event)@ == WorkerStateView::Event(event),
        WorkerState::Queue(state)@ == WorkerStateView::Queue(state),
        (WorkerState::Host { queue: state, pending })@ == (WorkerStateView::Host {
            queue: state,
            pending: pending@,
        }),
        worker::worker_step_view(WorkerStep::<E, Q, M, S>::Call(ws, wc)) == WorkerStepView::<
            E,
            Q,
            M,
            S,
        >::Call(ws@, wc@),
        worker::worker_step_view(WorkerStep::<E, Q, M, S>::Done(r)) == WorkerStepView::<
            E,
            Q,
            M,
            S,
        >::Done(r),
        wc.counted() && wc == WorkerCall::Host(host) ==> (host matches HostCall::Submit(args)
            ==> args.counted()),
        worker::step_counted(WorkerStep::<E, Q, M, S>::Call(ws, wc)) ==> wc.counted(),
{
}

/// Work for activating the device says what it carries.
pub proof fn law_activation_calls<E>(
    path: HostPath,
    name: String,
    queue: usize,
    confined: bool,
    handler: NpuEpollHandler,
    stage: ActivateStage,
    call: ActivateCall,
    r: Result<(), ActivateError<E>>,
)
    ensures
        ActivateCall::Common@ == ActivateCallView::Common,
        ActivateCall::DupEventFds@ == ActivateCallView::DupEventFds,
        (ActivateCall::OpenAccel { path })@ == (ActivateCallView::OpenAccel { path: path@ }),
        (ActivateCall::SpawnWorker { name, queue, confined, handler })@ == (
        ActivateCallView::SpawnWorker { name: name@, queue, confined, bos: handler@ }),
        npu::activate_step_view(ActivateStep::<E>::Call(stage, call)) == ActivateStepView::<
            E,
        >::Call(stage, call@),
        npu::activate_step_view(ActivateStep::<E>::Done(r)) == ActivateStepView::<E>::Done(r),
{
}

/// Errors say what went wrong, and with what.
pub proof fn law_errors(
    n: i32,
    text: String,
    e: IoError,
    path: HostPath,
    dir: String,
    h: HypervisorVmError,
)
    ensures
        IoError::Os(n)@ == IoErrorView::Os(n),
        IoError::Other(text)@ == IoErrorView::Other(text@),
        PlatformDeviceError::OpenGroup(path, e)@ == PlatformDeviceErrorView::OpenGroup(path@, e@),
        PlatformDeviceError::OpenContainer(e)@ == PlatformDeviceErrorView::OpenContainer(e@),
        PlatformDeviceError::GroupStatus(e)@ == PlatformDeviceErrorView::GroupStatus(e@),
        PlatformDeviceError::GroupNotViable@ == PlatformDeviceErrorView::GroupNotViable,
        PlatformDeviceError::SetContainer(e)@ == PlatformDeviceErrorView::SetContainer(e@),
        PlatformDeviceError::SetNoiommu(e)@ == PlatformDeviceErrorView::SetNoiommu(e@),
        PlatformDeviceError::ResolveDeviceName(dir, text)@
            == PlatformDeviceErrorView::ResolveDeviceName(dir@, text@),
        PlatformDeviceError::GetDeviceFd(e)@ == PlatformDeviceErrorView::GetDeviceFd(e@),
        PlatformDeviceError::GetDeviceInfo(e)@ == PlatformDeviceErrorView::GetDeviceInfo(e@),
        PlatformDeviceError::GetRegionInfo(e)@ == PlatformDeviceErrorView::GetRegionInfo(e@),
        PlatformDeviceError::MmapRegion(e)@ == PlatformDeviceErrorView::MmapRegion(e@),
        PlatformDeviceError::CreateUserMemoryRegion(h)@
            == PlatformDeviceErrorView::CreateUserMemoryRegion(h.text@),
        PlatformDeviceError::GetIrqInfo(e)@ == PlatformDeviceErrorView::GetIrqInfo(e@),
        PlatformDeviceError::SetIrqs(e)@ == PlatformDeviceErrorView::SetIrqs(e@),
        PlatformDeviceError::CreateEventFd(e)@ == PlatformDeviceErrorView::CreateEventFd(e@),
        PlatformDeviceError::RegisterIrqfd(h)@ == PlatformDeviceErrorView::RegisterIrqfd(h.text@),
{
}

/// Asking a device says what has been told, and ends with it.
pub proof fn law_info_steps(
    num_regions: u32,
    num_irqs: u32,
    regions: Vec<VfioPlatformRegionInfo>,
    irqs: Vec<VfioPlatformIrqInfo>,
    state: InfoState,
    call: InfoCall,
    info: DeviceInfo,
    e: PlatformDeviceError,
)
    ensures
        InfoState::Device@ == InfoStateView::Device,
        (InfoState::Region { num_regions, num_irqs, regions })@ == (InfoStateView::Region {
            num_regions,
            num_irqs,
            regions: regions@,
        }),
        (InfoState::Irq { num_irqs, regions, irqs })@ == (InfoStateView::Irq {
            num_irqs,
            regions: regions@,
            irqs: irqs@,
        }),
        device_info::info_step_view(InfoStep::Call(state, call)) == InfoStepView::Call(state@, call),
        device_info::info_step_view(InfoStep::Done(Ok(info))) == InfoStepView::Done(
            Ok((info.0@, info.1@)),
        ),
        device_info::info_step_view(InfoStep::Done(Err(e))) == InfoStepView::Done(Err(e)),
{
}

/// Mapping regions says where it stands and what the guest has.
pub proof fn law_map_steps(
    state: MapState,
    call: MapCall,
    mapped: Vec<PlatformRegionMapping>,
    e: PlatformDeviceError,
)
    ensures
        state@.plan == state.plan@ && state@.at == state.at && state@.stage == state.stage
            && state@.mapped == state.mapped@,
        mapping::map_step_view(MapStep::Call(state, call)) == MapStepView::Call(state@, call),
        mapping::map_step_view(MapStep::Done(Ok(mapped))) == MapStepView::Done(Ok(mapped@)),
        mapping::map_step_view(MapStep::Done(Err(e))) == MapStepView::Done(Err(e)),
{
}

/// Wiring an interrupt and the probe say what they do next and what they end with.
pub proof fn law_irq_and_probe_steps(
    state: IrqState,
    call: IrqCall,
    gsi: u32,
    at: ProbeState,
    does: ProbeCall,
    e: PlatformDeviceError,
)
    ensures
        irq::irq_step_view(IrqStep::Call(state, call)) == IrqStepView::Call(state, call),
        irq::irq_step_view(IrqStep::Done(Ok(gsi))) == IrqStepView::Done(Ok(gsi)),
        irq::irq_step_view(IrqStep::Done(Err(e))) == IrqStepView::Done(Err(e@)),
        probe::probe_step_view(ProbeStep::Call(at, does)) == ProbeStepView::Call(at, does),
        probe::probe_step_view(ProbeStep::Done(Ok(()))) == ProbeStepView::Done(Ok(())),
        probe::probe_step_view(ProbeStep::Done(Err(e))) == ProbeStepView::Done(Err(e@)),
{
}

/// Setting a device up says what it does next, what it keeps and what it ends with.
pub proof fn law_setup_steps(
    name: String,
    plan: Vec<PlannedRegion>,
    spi: u32,
    irqs: Vec<VfioPlatformIrqInfo>,
    regions: Vec<PlatformRegionMapping>,
    config: PlatformDeviceConfig,
    stage: SetupStage,
    call: SetupCall,
    device: VfioPlatformDevice,
    e: PlatformDeviceError,
)
    ensures
        SetupCall::OpenGroup@ == SetupCallView::OpenGroup,
        SetupCall::ResolveName@ == SetupCallView::ResolveName,
        (SetupCall::GetDeviceFd { name })@ == (SetupCallView::GetDeviceFd { name: name@ }),
        SetupCall::GetDeviceInfo@ == SetupCallView::GetDeviceInfo,
        (SetupCall::MapRegions { plan })@ == (SetupCallView::MapRegions { plan: plan@ }),
        (SetupCall::WireIrq { spi, irqs })@ == (SetupCallView::WireIrq { spi, irqs: irqs@ }),
        SetupStage::OpenGroup@ == SetupStageView::OpenGroup,
        SetupStage::ResolveName@ == SetupStageView::ResolveName,
        (SetupStage::GetDeviceFd { name })@ == (SetupStageView::GetDeviceFd { name: name@ }),
        (SetupStage::GetDeviceInfo { name })@ == (SetupStageView::GetDeviceInfo { name: name@ }),
        (SetupStage::MapRegions { name, irqs })@ == (SetupStageView::MapRegions {
            name: name@,
            irqs: irqs@,
        }),
        (SetupStage::WireIrq { name, regions })@ == (SetupStageView::WireIrq {
            name: name@,
            regions: regions@,
        }),
        platform_device::setup_step_view(
            SetupStep::Call((SetupState { config, stage }), call),
        ) == SetupStepView::Call((config, stage@), call@),
        platform_device::setup_step_view(SetupStep::Done(Ok(device))) == SetupStepView::Done(
            Ok(device@),
        ),
        platform_device::setup_step_view(SetupStep::Done(Err(e))) == SetupStepView::Done(Err(e)),
{
}

} // verus!
