[package]
name = "npu-vmm"
version = "0.1.0"
edition = "2021"
publish = false

[dependencies]
anyhow = "1"
epoll = "*"
libc = "0.2"
log = "0.4"
seccompiler = "*"
thiserror = "*"
vfio-bindings = "*"
virtio-queue = "*"
vm-memory = { version = "*", features = ["backend-mmap", "backend-atomic"] }
vmm-sys-util = "*"
