//! The requests that the guest's driver writes, and the replies that it reads.
//!
//! A request is a header of two words, the opcode and the length, and a body that depends on the
//! opcode. A reply is a header of two words, the status and the length, and a payload. All words
//! are little-endian.

use vstd::prelude::*;
use vstd::slice::slice_subrange;

use crate::le;

verus! {

/// Makes a buffer object: size, number of pages, id, a word that is ignored, the pages' addresses.
pub const OP_CREATE_BO: u32 = 1;

/// Destroys a buffer object: id.
pub const OP_DESTROY_BO: u32 = 2;

/// Submits jobs: number of jobs, a word that is ignored, the jobs.
pub const OP_SUBMIT: u32 = 3;

/// Waits for a buffer object and brings its contents to the guest: id, a word that is ignored,
/// timeout.
pub const OP_PREP_BO: u32 = 4;

/// Brings a buffer object's contents to the host and hands it to the device: id.
pub const OP_FINI_BO: u32 = 5;

/// The bytes of a header.
pub const HEADER_LEN: usize = 8;

/// A request that is well formed. The jobs of a submission are left in the body: what they mean
/// depends on the buffer objects that there are.
#[derive(Debug)]
pub enum Request {
    CreateBo { size: u32, gid: u32, gpas: Vec<u64> },
    DestroyBo { gid: u32 },
    Submit { job_count: u32 },
    PrepBo { gid: u32, timeout_ns: i64 },
    FiniBo { gid: u32 },
}

/// What a `Request` says.
pub ghost enum RequestView {
    CreateBo { size: u32, gid: u32, gpas: Seq<u64> },
    DestroyBo { gid: u32 },
    Submit { job_count: u32 },
    PrepBo { gid: u32, timeout_ns: i64 },
    FiniBo { gid: u32 },
}

impl View for Request {
    type V = RequestView;

    open spec fn view(&self) -> RequestView {
        match *self {
            Request::CreateBo { size, gid, gpas } => RequestView::CreateBo { size, gid, gpas: gpas@ },
            Request::DestroyBo { gid } => RequestView::DestroyBo { gid },
            Request::Submit { job_count } => RequestView::Submit { job_count },
            Request::PrepBo { gid, timeout_ns } => RequestView::PrepBo { gid, timeout_ns },
            Request::FiniBo { gid } => RequestView::FiniBo { gid },
        }
    }
}

/// What follows the header.
pub open spec fn body(req: Seq<u8>) -> Seq<u8> {
    req.skip(HEADER_LEN as int)
}

/// The words of 64 bits at `off`, `n` of them.
pub open spec fn u64s(s: Seq<u8>, off: int, n: nat) -> Seq<u64> {
    Seq::new(n, |i: int| le::u64_at(s, off + 8 * i))
}

/// The words of 32 bits at `off`, `n` of them.
pub open spec fn u32s(s: Seq<u8>, off: int, n: nat) -> Seq<u32> {
    Seq::new(n, |i: int| le::u32_at(s, off + 4 * i))
}

/// The request that the body of one with the given opcode makes, if it is well formed.
pub open spec fn decode_body(opcode: u32, b: Seq<u8>) -> Option<RequestView> {
    if opcode == OP_CREATE_BO && b.len() >= 16 && b.len() >= 16 + 8 * le::u32_at(b, 4) {
        Some(
            RequestView::CreateBo {
                size: le::u32_at(b, 0),
                gid: le::u32_at(b, 8),
                gpas: u64s(b, 16, le::u32_at(b, 4) as nat),
            },
        )
    } else if opcode == OP_DESTROY_BO && b.len() >= 4 {
        Some(RequestView::DestroyBo { gid: le::u32_at(b, 0) })
    } else if opcode == OP_SUBMIT && b.len() >= 8 {
        Some(RequestView::Submit { job_count: le::u32_at(b, 0) })
    } else if opcode == OP_PREP_BO && b.len() >= 16 {
        Some(
            RequestView::PrepBo { gid: le::u32_at(b, 0), timeout_ns: le::signed(le::u64_at(b, 8)) },
        )
    } else if opcode == OP_FINI_BO && b.len() >= 4 {
        Some(RequestView::FiniBo { gid: le::u32_at(b, 0) })
    } else {
        None
    }
}

/// The request that the bytes make, if they are well formed.
pub open spec fn decode(req: Seq<u8>) -> Option<RequestView> {
    if req.len() < HEADER_LEN {
        None
    } else {
        decode_body(le::u32_at(req, 0), body(req))
    }
}

/// The optional view of an optional request.
pub open spec fn view_of(r: Option<Request>) -> Option<RequestView> {
    match r {
        Some(request) => Some(request@),
        None => None,
    }
}

/// Reads `n` words of 64 bits at `off`.
fn read_u64s(s: &[u8], off: usize, n: usize) -> (v: Vec<u64>)
    requires
        off + 8 * n <= s.len(),
    ensures
        v@ == u64s(s@, off as int, n as nat),
{
    let mut v: Vec<u64> = Vec::new();
    let mut i: usize = 0;
    while i < n
        invariant
            i <= n,
            off + 8 * n <= s.len(),
            v@ == u64s(s@, off as int, i as nat),
        decreases n - i,
    {
        v.push(le::read_u64(s, off + 8 * i));
        i = i + 1;
    }
    v
}

/// Reads a request.
pub fn decode_request(req: &[u8]) -> (r: Option<Request>)
    ensures
        view_of(r) == decode(req@),
{
    if req.len() < HEADER_LEN {
        return None;
    }
    let opcode: u32 = le::read_u32(req, 0);
    let b = slice_subrange(req, HEADER_LEN, req.len());
    if opcode == OP_CREATE_BO {
        if b.len() < 16 {
            return None;
        }
        let size: u32 = le::read_u32(b, 0);
        let nr_pages: u32 = le::read_u32(b, 4);
        let gid: u32 = le::read_u32(b, 8);
        if (b.len() as u64) < 16 + nr_pages as u64 * 8 {
            return None;
        }
        let gpas = read_u64s(b, 16, nr_pages as usize);
        Some(Request::CreateBo { size, gid, gpas })
    } else if opcode == OP_DESTROY_BO {
        if b.len() < 4 {
            return None;
        }
        Some(Request::DestroyBo { gid: le::read_u32(b, 0) })
    } else if opcode == OP_FINI_BO {
        if b.len() < 4 {
            return None;
        }
        Some(Request::FiniBo { gid: le::read_u32(b, 0) })
    } else if opcode == OP_PREP_BO {
        if b.len() < 16 {
            return None;
        }
        Some(Request::PrepBo { gid: le::read_u32(b, 0), timeout_ns: le::read_i64(b, 8) })
    } else if opcode == OP_SUBMIT {
        if b.len() < 8 {
            return None;
        }
        Some(Request::Submit { job_count: le::read_u32(b, 0) })
    } else {
        None
    }
}

/// A reply: status, length of the whole, payload.
pub open spec fn reply(status: u32, payload: Seq<u8>) -> Seq<u8> {
    le::le32(status) + le::le32((HEADER_LEN + payload.len()) as u32) + payload
}

/// The reply to a request that was carried out and has nothing to say.
pub open spec fn success() -> Seq<u8> {
    reply(0, Seq::empty())
}

/// The reply to a request that was refused or failed.
pub open spec fn failure(errno: i32) -> Seq<u8> {
    reply(le::unsigned(errno), Seq::empty())
}

/// The reply to a request that made a buffer object: the address at which the device sees it.
pub open spec fn created(dma_address: u64) -> Seq<u8> {
    reply(0, le::le64(dma_address))
}

/// The reply to a request that was carried out.
pub fn success_reply() -> (r: Vec<u8>)
    ensures
        r@ == success(),
{
    let mut r: Vec<u8> = Vec::new();
    le::push_u32(&mut r, 0);
    le::push_u32(&mut r, 8);
    r
}

/// The reply to a request that failed.
pub fn fail(errno: i32) -> (r: Vec<u8>)
    ensures
        r@ == failure(errno),
{
    let mut r: Vec<u8> = Vec::new();
    le::push_u32(&mut r, le::as_unsigned(errno));
    le::push_u32(&mut r, 8);
    r
}

/// The reply to a request that made a buffer object.
pub fn created_reply(dma_address: u64) -> (r: Vec<u8>)
    ensures
        r@ == created(dma_address),
{
    let mut r: Vec<u8> = Vec::new();
    le::push_u32(&mut r, 0);
    le::push_u32(&mut r, 16);
    le::push_u64(&mut r, dma_address);
    r
}

} // verus!
