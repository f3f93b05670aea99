//! Where everything stands in requests and replies, counted from their first byte.

use vstd::prelude::*;

use crate::encode;
use crate::le;
use crate::wire;
use crate::wire::RequestView;

verus! {

/// A request for a buffer object says opcode 1 in its first word; behind the header stand the size, the
/// number of pages, the id and a word that is ignored, then the addresses of the pages. It is one if
/// and only if all of them are there.
pub proof fn law_create_request(req: Seq<u8>)
    ensures
        wire::decode(req) matches Some(RequestView::CreateBo { .. }) <==> {
            &&& req.len() >= 24
            &&& le::u32_at(req, 0) == 1
            &&& req.len() >= 24 + 8 * le::u32_at(req, 12)
        },
        wire::decode(req) matches Some(RequestView::CreateBo { size, gid, gpas }) ==> {
            &&& size == le::u32_at(req, 8)
            &&& gid == le::u32_at(req, 16)
            &&& gpas.len() == le::u32_at(req, 12)
            &&& forall|i: int|
                0 <= i < gpas.len() ==> #[trigger] gpas[i] == le::u64_at(req, 24 + 8 * i)
        },
{
    if req.len() >= 24 {
        encode::lemma_body_word(req, 0);
        encode::lemma_body_word(req, 4);
        encode::lemma_body_word(req, 8);
        if let Some(RequestView::CreateBo { size, gid, gpas }) = wire::decode(req) {
            assert forall|i: int| 0 <= i < gpas.len() implies #[trigger] gpas[i] == le::u64_at(
                req,
                24 + 8 * i,
            ) by {
                encode::lemma_body_word(req, 16 + 8 * i);
            }
        }
    }
}

/// Requests to destroy a buffer object and to hand one over say opcodes 2 and 5, and the id stands
/// behind the header.
pub proof fn law_requests_about_one(req: Seq<u8>)
    ensures
        wire::decode(req) matches Some(RequestView::DestroyBo { .. }) <==> req.len() >= 12
            && le::u32_at(req, 0) == 2,
        wire::decode(req) matches Some(RequestView::DestroyBo { gid }) ==> gid == le::u32_at(req, 8),
        wire::decode(req) matches Some(RequestView::FiniBo { .. }) <==> req.len() >= 12
            && le::u32_at(req, 0) == 5,
        wire::decode(req) matches Some(RequestView::FiniBo { gid }) ==> gid == le::u32_at(req, 8),
{
    if req.len() >= 12 {
        encode::lemma_body_word(req, 0);
    }
}

/// A request to wait for a buffer object says opcode 4; behind the header stand the id, a word that is
/// ignored, and the timeout, which may be negative.
pub proof fn law_prep_request(req: Seq<u8>)
    ensures
        wire::decode(req) matches Some(RequestView::PrepBo { .. }) <==> req.len() >= 24
            && le::u32_at(req, 0) == 4,
        wire::decode(req) matches Some(RequestView::PrepBo { gid, timeout_ns }) ==> {
            &&& gid == le::u32_at(req, 8)
            &&& le::u64_at(req, 16) < 0x8000_0000_0000_0000 ==> timeout_ns == le::u64_at(req, 16)
            &&& le::u64_at(req, 16) >= 0x8000_0000_0000_0000 ==> le::u64_at(req, 16) - timeout_ns
                == 0x1_0000_0000_0000_0000
        },
{
    if req.len() >= 24 {
        encode::lemma_body_word(req, 0);
        encode::lemma_body_word(req, 8);
        le::law_readings_agree(le::u64_at(req, 16), 0, 0);
    }
}

/// A submission says opcode 3; behind the header stands the number of jobs, and the jobs start at byte
/// 16 of the request.
pub proof fn law_submit_request(req: Seq<u8>)
    ensures
        wire::decode(req) matches Some(RequestView::Submit { .. }) <==> req.len() >= 16
            && le::u32_at(req, 0) == 3,
        wire::decode(req) matches Some(RequestView::Submit { job_count }) ==> {
            &&& job_count == le::u32_at(req, 8)
            &&& wire::body(req).len() == req.len() - 8
            &&& forall|i: int|
                0 <= i < wire::body(req).len() ==> #[trigger] wire::body(req)[i] == req[i + 8]
        },
{
    if req.len() >= 16 {
        encode::lemma_body_word(req, 0);
    }
}

/// Nothing else is a request.
pub proof fn law_no_request(req: Seq<u8>)
    ensures
        req.len() < 12 ==> wire::decode(req) is None,
        req.len() >= 4 && (le::u32_at(req, 0) == 0 || le::u32_at(req, 0) > 5) ==> wire::decode(
            req,
        ) is None,
        wire::decode(req) is Some ==> 1 <= le::u32_at(req, 0) <= 5,
{
}

/// The replies, word by word: a status, the length of the whole, and the device's address of a buffer
/// object that was made.
pub proof fn law_reply_words(e: i32, dma_address: u64)
    ensures
        wire::success().len() == 8,
        le::u32_at(wire::success(), 0) == 0,
        le::u32_at(wire::success(), 4) == 8,
        wire::failure(e).len() == 8,
        e >= 0 ==> le::u32_at(wire::failure(e), 0) == e,
        e < 0 ==> le::u32_at(wire::failure(e), 0) - e == 0x1_0000_0000,
        le::u32_at(wire::failure(e), 4) == 8,
        wire::created(dma_address).len() == 16,
        le::u32_at(wire::created(dma_address), 0) == 0,
        le::u32_at(wire::created(dma_address), 4) == 16,
        le::u64_at(wire::created(dma_address), 8) == dma_address,
{
    let none = Seq::<u8>::empty();
    let s = le::unsigned(e);
    le::law_readings_agree(0, 0, e);
    lemma_words(0, 8, none);
    lemma_words(s, 8, none);
    lemma_words(0, 16, le::le64(dma_address));
    le::law_u64_round_trip(le::le32(0) + le::le32(16), dma_address, none);
    assert(wire::created(dma_address) =~= le::le32(0) + le::le32(16) + le::le64(dma_address) + none);
}

/// The two words of a header read back.
proof fn lemma_words(a: u32, b: u32, rest: Seq<u8>)
    ensures
        le::u32_at(le::le32(a) + le::le32(b) + rest, 0) == a,
        le::u32_at(le::le32(a) + le::le32(b) + rest, 4) == b,
        (le::le32(a) + le::le32(b) + rest).len() == 8 + rest.len(),
{
    let none = Seq::<u8>::empty();
    le::law_u32_round_trip(none, a, le::le32(b) + rest);
    le::law_u32_round_trip(le::le32(a), b, rest);
    assert(none + le::le32(a) + (le::le32(b) + rest) =~= le::le32(a) + le::le32(b) + rest);
}

/// What stands behind a request that is well formed does not change what it asks for.
pub proof fn law_trailing_bytes_do_not_matter(req: Seq<u8>, more: Seq<u8>)
    requires
        wire::decode(req) is Some,
    ensures
        wire::decode(req + more) == wire::decode(req),
{
    let long = req + more;
    let b = wire::body(req);
    let l = wire::body(long);
    assert(long.len() >= req.len());
    assert forall|i: int| 0 <= i && i + 4 <= req.len() implies #[trigger] le::u32_at(long, i)
        == le::u32_at(req, i) by {}
    assert forall|i: int| 0 <= i && i + 4 <= b.len() implies #[trigger] le::u32_at(l, i)
        == le::u32_at(b, i) by {
        assert(l[i] == b[i] && l[i + 1] == b[i + 1] && l[i + 2] == b[i + 2] && l[i + 3] == b[i + 3]);
    }
    assert(le::u32_at(long, 0) == le::u32_at(req, 0));
    if let Some(RequestView::CreateBo { size, gid, gpas }) = wire::decode(req) {
        assert(le::u32_at(l, 4) == le::u32_at(b, 4));
        let n = le::u32_at(b, 4) as nat;
        assert forall|i: int| 0 <= i < n implies #[trigger] le::u64_at(l, 16 + 8 * i) == le::u64_at(
            b,
            16 + 8 * i,
        ) by {
            assert(le::u32_at(l, 16 + 8 * i) == le::u32_at(b, 16 + 8 * i));
            assert(le::u32_at(l, 16 + 8 * i + 4) == le::u32_at(b, 16 + 8 * i + 4));
        }
        assert(wire::u64s(l, 16, n) =~= wire::u64s(b, 16, n));
        assert(le::u32_at(l, 0) == le::u32_at(b, 0) && le::u32_at(l, 8) == le::u32_at(b, 8));
    } else {
        assert(le::u32_at(l, 0) == le::u32_at(b, 0));
        if b.len() >= 16 {
            assert(le::u32_at(l, 8) == le::u32_at(b, 8) && le::u32_at(l, 12) == le::u32_at(b, 12));
        }
    }
}

} // verus!
