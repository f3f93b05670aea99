# npu-vmm

Shares the NPU of an RK3588 with a virtual machine: as a paravirtual device behind a virtqueue, or by
passing one of its cores through as a VFIO platform device.

- `src/` is the verified core. It decides: what a request means, what is asked of the host's driver
  and in which order, what the guest is answered, where a device's regions go, how its interrupt is
  wired. It does no input or output.
- `app/` does what the core decides: it opens files, calls drivers, maps memory and copies pages. What
  it needs of the virtual machine monitor around it are traits in `app/vmm.rs`.
- `tests/` runs the core on concrete values.

## How a procedure runs

A procedure that needs work on the host is a pair of functions. The first returns a step: a call to
make, together with the state to go on from, or a result. The second takes the state and what came of
the call and returns the next step. `handle_request` and `resume` in `src/request.rs` carry out one
request of the guest in this way; `process_queue` and `resume_queue` in `src/queue.rs` work a
virtqueue off; `handle_event` and `resume_worker` in `src/worker.rs` put these together, from an event
to the guest's interrupt; `VfioPlatformDevice::new` and `resume` in `src/platform_device.rs` set a device up.

## What is trusted

- `vmm_sys_util::ioctl::ioctl_expr`, which puts the numbers of driver requests together
  (`src/ioc.rs`).
- `std::str::from_utf8`, which tells whether bytes are text (`src/text.rs`).
