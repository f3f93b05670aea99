//! The error numbers that replies carry.

use vstd::prelude::*;

verus! {

/// No such entry: the id names no buffer object.
pub const ENOENT: i32 = 2;

/// Input or output error, where the host gives no number of its own.
pub const EIO: i32 = 5;

/// Out of memory: the host could not map a buffer object.
pub const ENOMEM: i32 = 12;

/// Bad address: a guest page could not be read or written.
pub const EFAULT: i32 = 14;

/// Invalid argument: the request is not well formed.
pub const EINVAL: i32 = 22;

} // verus!
