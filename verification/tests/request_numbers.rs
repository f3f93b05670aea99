use npu_vmm::errno;
use npu_vmm::ioc;
use npu_vmm::irq;
use npu_vmm::mapping;
use npu_vmm::npu;
use npu_vmm::rocket;
use npu_vmm::vfio;

use vfio_bindings::bindings::vfio as kernel;

#[test]
fn rocket_request_numbers() {
    assert_eq!(rocket::ROCKET_CREATE_BO(), 0xc018_6440);
    assert_eq!(rocket::ROCKET_SUBMIT(), 0x4018_6441);
    assert_eq!(rocket::ROCKET_PREP_BO(), 0x4010_6442);
    assert_eq!(rocket::ROCKET_FINI_BO(), 0x4008_6443);
    assert_eq!(rocket::DRM_GEM_CLOSE(), 0x4008_6409);
}

#[test]
fn vfio_request_numbers() {
    assert_eq!(vfio::VFIO_SET_IOMMU(), 0x3b66);
    assert_eq!(vfio::VFIO_GROUP_GET_STATUS(), 0x3b67);
    assert_eq!(vfio::VFIO_GROUP_SET_CONTAINER(), 0x3b68);
    assert_eq!(vfio::VFIO_GROUP_GET_DEVICE_FD(), 0x3b6a);
    assert_eq!(vfio::VFIO_DEVICE_GET_INFO(), 0x3b6b);
    assert_eq!(vfio::VFIO_DEVICE_GET_REGION_INFO(), 0x3b6c);
    assert_eq!(vfio::VFIO_DEVICE_GET_IRQ_INFO(), 0x3b6d);
    assert_eq!(vfio::VFIO_DEVICE_SET_IRQS(), 0x3b6e);
}

#[test]
fn request_number_fields() {
    assert_eq!(ioc::request(3, 0xff, 0xff, 0x3fff), 0xffff_ffff);
    assert_eq!(ioc::request(0, 0, 0, 0), 0);
    assert_eq!(ioc::request(1, 0, 0, 0), 0x4000_0000);
    assert_eq!(ioc::request(0, 1, 0, 0), 0x100);
    assert_eq!(ioc::request(0, 0, 1, 0), 1);
    assert_eq!(ioc::request(0, 0, 0, 1), 0x1_0000);
}

#[test]
fn numbers_of_all_requests_differ() {
    let numbers = [
        rocket::ROCKET_CREATE_BO(),
        rocket::ROCKET_SUBMIT(),
        rocket::ROCKET_PREP_BO(),
        rocket::ROCKET_FINI_BO(),
        rocket::DRM_GEM_CLOSE(),
        vfio::VFIO_SET_IOMMU(),
        vfio::VFIO_GROUP_GET_STATUS(),
        vfio::VFIO_GROUP_SET_CONTAINER(),
        vfio::VFIO_GROUP_GET_DEVICE_FD(),
        vfio::VFIO_DEVICE_GET_INFO(),
        vfio::VFIO_DEVICE_GET_REGION_INFO(),
        vfio::VFIO_DEVICE_GET_IRQ_INFO(),
        vfio::VFIO_DEVICE_SET_IRQS(),
    ];
    for i in 0..numbers.len() {
        for j in 0..i {
            assert_ne!(numbers[i], numbers[j]);
        }
    }
}

#[test]
fn directions_are_the_kernels() {
    assert_eq!(ioc::IOC_NONE, vmm_sys_util::ioctl::_IOC_NONE);
    assert_eq!(ioc::IOC_WRITE, vmm_sys_util::ioctl::_IOC_WRITE);
    assert_eq!(ioc::IOC_READ, vmm_sys_util::ioctl::_IOC_READ);
}

#[test]
fn error_numbers_are_the_hosts() {
    assert_eq!(errno::ENOENT, libc::ENOENT);
    assert_eq!(errno::EIO, libc::EIO);
    assert_eq!(errno::ENOMEM, libc::ENOMEM);
    assert_eq!(errno::EFAULT, libc::EFAULT);
    assert_eq!(errno::EINVAL, libc::EINVAL);
}

#[test]
fn mapping_flags_are_the_hosts() {
    assert_eq!(mapping::PROT_NONE, libc::PROT_NONE);
    assert_eq!(mapping::PROT_READ, libc::PROT_READ);
    assert_eq!(mapping::PROT_WRITE, libc::PROT_WRITE);
    assert_eq!(mapping::PROT_READ_WRITE, libc::PROT_READ | libc::PROT_WRITE);
    assert_eq!(mapping::MAP_SHARED, libc::MAP_SHARED);
}

#[test]
fn vfio_constants_are_the_kernels() {
    assert_eq!(vfio::VFIO_TYPE, u32::from(kernel::VFIO_TYPE));
    assert_eq!(vfio::VFIO_BASE, kernel::VFIO_BASE);
    assert_eq!(vfio::VFIO_GROUP_FLAGS_VIABLE, kernel::VFIO_GROUP_FLAGS_VIABLE);
    assert_eq!(vfio::VFIO_NOIOMMU_IOMMU, u64::from(kernel::VFIO_NOIOMMU_IOMMU));
    assert_eq!(vfio::VFIO_REGION_INFO_FLAG_READ, kernel::VFIO_REGION_INFO_FLAG_READ);
    assert_eq!(vfio::VFIO_REGION_INFO_FLAG_WRITE, kernel::VFIO_REGION_INFO_FLAG_WRITE);
    assert_eq!(vfio::VFIO_REGION_INFO_FLAG_MMAP, kernel::VFIO_REGION_INFO_FLAG_MMAP);
    assert_eq!(vfio::VFIO_IRQ_INFO_EVENTFD, kernel::VFIO_IRQ_INFO_EVENTFD);
    assert_eq!(vfio::VFIO_IRQ_SET_DATA_EVENTFD, kernel::VFIO_IRQ_SET_DATA_EVENTFD);
    assert_eq!(vfio::VFIO_IRQ_SET_ACTION_UNMASK, kernel::VFIO_IRQ_SET_ACTION_UNMASK);
    assert_eq!(vfio::VFIO_IRQ_SET_ACTION_TRIGGER, kernel::VFIO_IRQ_SET_ACTION_TRIGGER);
}

#[test]
fn vfio_sizes_are_the_kernels() {
    assert_eq!(vfio::GROUP_STATUS_SIZE as usize, std::mem::size_of::<kernel::vfio_group_status>());
    assert_eq!(vfio::DEVICE_INFO_SIZE as usize, std::mem::size_of::<kernel::vfio_device_info>());
    assert_eq!(vfio::REGION_INFO_SIZE as usize, std::mem::size_of::<kernel::vfio_region_info>());
    assert_eq!(vfio::IRQ_INFO_SIZE as usize, std::mem::size_of::<kernel::vfio_irq_info>());
    assert_eq!(vfio::IRQ_SET_SIZE as usize, std::mem::size_of::<kernel::vfio_irq_set>());
}

#[test]
fn other_constants() {
    assert_eq!(rocket::DRM_IOCTL_BASE, u32::from(b'd'));
    assert_eq!(irq::VFIO_PLATFORM_IRQ_INDEX, 0);
    assert_eq!(irq::SPI_BASE, 32);
    assert_eq!(irq::EFD_NONBLOCK, libc::EFD_NONBLOCK);
    assert_eq!(npu::QUEUE_SIZE, 16);
}
