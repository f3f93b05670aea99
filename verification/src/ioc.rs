//! The numbers by which Linux tells `ioctl` requests apart.

use vstd::prelude::*;

verus! {

/// `_IOC_NONE`: the request carries no argument structure.
pub const IOC_NONE: u32 = 0;

/// `_IOC_WRITE`: the caller hands a structure to the kernel.
pub const IOC_WRITE: u32 = 1;

/// `_IOC_READ`: the kernel fills a structure of the caller's.
pub const IOC_READ: u32 = 2;

/// A request number, field by field: the direction in the top two bits, then fourteen bits for the
/// size of the argument structure, eight for the driver's type and eight for the request.
pub open spec fn request_number(dir: u32, ty: u32, nr: u32, size: u32) -> int {
    dir * 0x4000_0000 + size * 0x1_0000 + ty * 0x100 + nr
}

/// `vmm_sys_util::ioctl::ioctl_expr` shifts each argument to its field and joins the four words
/// with `|`, in 32 bits; the result is widened. Nothing is masked: an argument that is too wide for
/// its field spills over into the next one, or is cut at the top.
pub assume_specification[ vmm_sys_util::ioctl::ioctl_expr ](
    dir: u32,
    ty: u32,
    nr: u32,
    size: u32,
) -> (r: u64)
    ensures
        r == ((dir << 30u32) | (ty << 8u32) | (nr << 0u32) | (size << 16u32)) as u64,
;

/// The number of a request whose fields fit.
pub fn request(dir: u32, ty: u32, nr: u32, size: u32) -> (r: u64)
    requires
        dir < 4,
        ty < 0x100,
        nr < 0x100,
        size < 0x4000,
    ensures
        r == request_number(dir, ty, nr, size),
{
    assert(((dir << 30u32) | (ty << 8u32) | (nr << 0u32) | (size << 16u32)) == dir * 0x4000_0000
        + size * 0x1_0000 + ty * 0x100 + nr) by (bit_vector)
        requires
            dir < 4,
            ty < 0x100,
            nr < 0x100,
            size < 0x4000,
    ;
    vmm_sys_util::ioctl::ioctl_expr(dir, ty, nr, size)
}

/// Two requests whose fields fit have the same number only if they agree in every field.
pub proof fn law_request_numbers_differ(
    dir: u32,
    ty: u32,
    nr: u32,
    size: u32,
    dir2: u32,
    ty2: u32,
    nr2: u32,
    size2: u32,
)
    requires
        dir < 4,
        ty < 0x100,
        nr < 0x100,
        size < 0x4000,
        dir2 < 4,
        ty2 < 0x100,
        nr2 < 0x100,
        size2 < 0x4000,
        request_number(dir, ty, nr, size) == request_number(dir2, ty2, nr2, size2),
    ensures
        dir == dir2,
        ty == ty2,
        nr == nr2,
        size == size2,
{
}

/// Every field can be read off a request's number.
pub proof fn law_fields_of_a_number(dir: u32, ty: u32, nr: u32, size: u32)
    requires
        dir < 4,
        ty < 0x100,
        nr < 0x100,
        size < 0x4000,
    ensures
        request_number(dir, ty, nr, size) / 0x4000_0000 == dir,
        request_number(dir, ty, nr, size) % 0x4000_0000 / 0x1_0000 == size,
        request_number(dir, ty, nr, size) % 0x1_0000 / 0x100 == ty,
        request_number(dir, ty, nr, size) % 0x100 == nr,
{
    let low = ty * 0x100 + nr;
    assert(0 <= low < 0x1_0000);
    assert(0 <= size * 0x1_0000 + low < 0x4000_0000);
    assert(request_number(dir, ty, nr, size) == (dir * 0x4000 + size) * 0x1_0000 + low);
}

} // verus!
