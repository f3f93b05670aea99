//! A verified core for sharing an RK3588 NPU with a virtual machine.
//!
//! There are two ways to share it. The guest's driver can send requests through a virtqueue, which
//! are then carried out on the host's rocket driver ([`npu`], [`queue`], [`request`], [`worker`]); or
//! one core of the NPU can be passed through as a VFIO platform device ([`platform_device`]).
//!
//! Both alternate between decisions and work on the host. The decisions are here, each procedure as
//! a function that says what to do first and one that takes what came of it and says what to do next
//! ([`step`]). Doing the work is left to the caller, so nothing here touches the host.
//!
//! What holds of whole procedures is proved in [`encode`], [`contents`], [`request_laws`],
//! [`queue_laws`], [`worker_laws`], [`platform_laws`] and [`mapping_laws`]. What each step does, in
//! terms of what goes in, is stated in [`wire_laws`], [`submit_laws`], [`handler_laws`] and
//! [`device_laws`], and [`view_laws`] ties what contracts speak of to the values themselves.

pub mod bo;
pub mod contents;
pub mod device_info;
pub mod device_laws;
pub mod encode;
pub mod errno;
pub mod group;
pub mod handler_laws;
pub mod ioc;
pub mod irq;
pub mod le;
pub mod mapping;
pub mod mapping_laws;
pub mod npu;
pub mod path;
pub mod platform_device;
pub mod platform_error;
pub mod platform_laws;
pub mod probe;
pub mod queue;
pub mod queue_laws;
pub mod region;
pub mod request;
pub mod request_laws;
pub mod result_laws;
pub mod rocket;
pub mod step;
pub mod submit;
pub mod submit_laws;
pub mod text;
pub mod vfio;
pub mod view_laws;
pub mod wire;
pub mod wire_laws;
pub mod worker;
pub mod worker_laws;
