//! What the copies do to the bytes of a buffer object and of the guest's pages.

use vstd::prelude::*;

use crate::bo::{BoView, PageCopy};

verus! {

/// Guest memory: the byte at each address.
pub type GuestBytes = spec_fn(int) -> u8;

/// The mapping's bytes after a copy from the guest.
pub open spec fn copied_in(copy: PageCopy, guest: GuestBytes, host: Seq<u8>) -> Seq<u8> {
    Seq::new(
        host.len(),
        |k: int|
            if copy.offset <= k < copy.offset + copy.len {
                guest(copy.gpa + (k - copy.offset))
            } else {
                host[k]
            },
    )
}

/// Guest memory after a copy to the guest.
pub open spec fn copied_out(copy: PageCopy, host: Seq<u8>, guest: GuestBytes) -> GuestBytes {
    |a: int|
        if copy.gpa <= a < copy.gpa + copy.len {
            host[copy.offset + (a - copy.gpa)]
        } else {
            guest(a)
        }
}

/// The mapping's bytes after the first `n` pages were copied from the guest.
pub open spec fn filled(bo: BoView, guest: GuestBytes, host: Seq<u8>, n: nat) -> Seq<u8>
    decreases n,
{
    if n == 0 {
        host
    } else {
        copied_in(bo.page_copy(n - 1), guest, filled(bo, guest, host, (n - 1) as nat))
    }
}

/// Guest memory after the first `n` pages were copied to the guest.
pub open spec fn drained(bo: BoView, host: Seq<u8>, guest: GuestBytes, n: nat) -> GuestBytes
    decreases n,
{
    if n == 0 {
        guest
    } else {
        copied_out(bo.page_copy(n - 1), host, drained(bo, host, guest, (n - 1) as nat))
    }
}

/// The copy of page `i` of the guest covers the address.
pub open spec fn covers(bo: BoView, i: int, a: int) -> bool {
    bo.gpas[i] <= a < bo.gpas[i] + bo.page_len(i)
}

/// The copies of no two pages overlap in the guest.
pub open spec fn pages_apart(bo: BoView) -> bool {
    forall|i: int, k: int|
        0 <= i < k < bo.gpas.len() ==> (#[trigger] bo.gpas[i]) + bo.page_len(i) <= (
        #[trigger] bo.gpas[k]) || bo.gpas[k] + bo.page_len(k) <= bo.gpas[i]
}

/// Handing a buffer object over brings every page of the guest to its place in the mapping, and
/// leaves the rest of the mapping alone.
pub proof fn law_filled_from_the_guest(bo: BoView, guest: GuestBytes, host: Seq<u8>, n: nat)
    requires
        host.len() == bo.mapped,
        n <= bo.gpas.len(),
    ensures
        filled(bo, guest, host, n).len() == bo.mapped,
        forall|i: int, j: int|
            0 <= i < n && 0 <= j < bo.page_len(i) ==> #[trigger] filled(
                bo,
                guest,
                host,
                n,
            )[bo.page_offset(i) + j] == guest(bo.gpas[i] + j),
        forall|k: int|
            bo.page_offset(n as int) <= k < bo.mapped ==> #[trigger] filled(bo, guest, host, n)[k]
                == host[k],
    decreases n,
{
    if n > 0 {
        let before = filled(bo, guest, host, (n - 1) as nat);
        law_filled_from_the_guest(bo, guest, host, (n - 1) as nat);
        assert forall|i: int, j: int| 0 <= i < n && 0 <= j < bo.page_len(i) implies #[trigger] filled(
            bo,
            guest,
            host,
            n,
        )[bo.page_offset(i) + j] == guest(bo.gpas[i] + j) by {
            if i < n - 1 {
                assert(before[bo.page_offset(i) + j] == guest(bo.gpas[i] + j));
            }
        }
        assert forall|k: int| bo.page_offset(n as int) <= k < bo.mapped implies #[trigger] filled(
            bo,
            guest,
            host,
            n,
        )[k] == host[k] by {
            assert(before[k] == host[k]);
        }
    }
}

/// Waiting for a buffer object brings every part of the mapping to its page of the guest, if the
/// copies do not overlap there, and leaves all other guest memory alone.
pub proof fn law_drained_to_the_guest(bo: BoView, host: Seq<u8>, guest: GuestBytes, n: nat)
    requires
        host.len() == bo.mapped,
        n <= bo.gpas.len(),
    ensures
        pages_apart(bo) ==> forall|i: int, j: int|
            0 <= i < n && 0 <= j < bo.page_len(i) ==> #[trigger] drained(bo, host, guest, n)(
                bo.gpas[i] + j,
            ) == host[bo.page_offset(i) + j],
        forall|a: int|
            (forall|i: int| 0 <= i < n ==> !(#[trigger] covers(bo, i, a))) ==> #[trigger] drained(
                bo,
                host,
                guest,
                n,
            )(a) == guest(a),
    decreases n,
{
    if n > 0 {
        let before = drained(bo, host, guest, (n - 1) as nat);
        law_drained_to_the_guest(bo, host, guest, (n - 1) as nat);
        if pages_apart(bo) {
            assert forall|i: int, j: int|
                0 <= i < n && 0 <= j < bo.page_len(i) implies #[trigger] drained(bo, host, guest, n)(
                bo.gpas[i] + j,
            ) == host[bo.page_offset(i) + j] by {
                if i < n - 1 {
                    assert(before(bo.gpas[i] + j) == host[bo.page_offset(i) + j]);
                    assert(bo.gpas[i] + bo.page_len(i) <= bo.gpas[n - 1] || bo.gpas[n - 1]
                        + bo.page_len(n - 1) <= bo.gpas[i]);
                }
            }
        }
        assert forall|a: int|
            (forall|i: int| 0 <= i < n ==> !(#[trigger] covers(
                bo,
                i,
                a,
            ))) implies #[trigger] drained(bo, host, guest, n)(a) == guest(a) by {
            assert(!covers(bo, n - 1, a));
            assert(before(a) == guest(a));
        }
    }
}

/// A buffer object that is handed over and waited for gives the guest its own bytes back, if the
/// device leaves the mapping alone in between, whatever became of guest memory meanwhile: where a
/// page is copied, guest memory is as it was when the buffer object was handed over, even if copies
/// overlap; everywhere else it stays as it is.
pub proof fn law_handed_over_and_back(
    bo: BoView,
    guest: GuestBytes,
    host: Seq<u8>,
    later: GuestBytes,
    n: nat,
)
    requires
        host.len() == bo.mapped,
        n <= bo.gpas.len(),
    ensures
        ({
            let back = drained(bo, filled(bo, guest, host, bo.gpas.len()), later, n);
            &&& forall|i: int, a: int|
                0 <= i < n && #[trigger] covers(bo, i, a) ==> back(a) == guest(a)
            &&& forall|a: int|
                (forall|i: int| 0 <= i < n ==> !(#[trigger] covers(bo, i, a))) ==> #[trigger] back(a)
                    == later(a)
        }),
    decreases n,
{
    let full = filled(bo, guest, host, bo.gpas.len());
    law_filled_from_the_guest(bo, guest, host, bo.gpas.len());
    law_drained_to_the_guest(bo, full, later, n);
    if n > 0 {
        law_handed_over_and_back(bo, guest, host, later, (n - 1) as nat);
        let back = drained(bo, full, later, n);
        assert forall|i: int, a: int| 0 <= i < n && #[trigger] covers(bo, i, a) implies back(a)
            == guest(a) by {
            if covers(bo, n - 1, a) {
                let j = a - bo.gpas[n - 1];
                assert(full[bo.page_offset(n - 1) + j] == guest(bo.gpas[n - 1] + j));
            }
        }
    }
}

/// Byte by byte: after a buffer object was handed over, byte `k` of its mapping is the guest's byte at
/// the same place of its page `k / 4096`, for all bytes that were asked for, are mapped and have a
/// page; and all other bytes of the mapping are as they were.
pub proof fn law_bytes_of_the_guest_arrive(bo: BoView, guest: GuestBytes, host: Seq<u8>, k: int)
    requires
        host.len() == bo.mapped,
        0 <= k < bo.mapped,
    ensures
        ({
            let full = filled(bo, guest, host, bo.gpas.len());
            &&& full.len() == bo.mapped
            &&& full[k] == if k < bo.size && k < 4096 * bo.gpas.len() {
                guest(bo.gpas[k / 4096] + k % 4096)
            } else {
                host[k]
            }
        }),
{
    let n = bo.gpas.len();
    law_filled_from_the_guest(bo, guest, host, n);
    if k < bo.size && k < 4096 * n {
        assert(bo.page_offset(k / 4096) + k % 4096 == k);
        assert(filled(bo, guest, host, n)[bo.page_offset(k / 4096) + k % 4096] == guest(
            bo.gpas[k / 4096] + k % 4096,
        ));
    } else {
        assert(bo.page_offset(n as int) <= k);
    }
}

/// Byte by byte: after a buffer object was waited for, the guest's byte `j` of page `i` is byte
/// `4096 * i + j` of the mapping, for all bytes that were asked for and are mapped, if no two pages
/// of the guest overlap.
pub proof fn law_bytes_of_the_host_arrive(
    bo: BoView,
    host: Seq<u8>,
    guest: GuestBytes,
    i: int,
    j: int,
)
    requires
        host.len() == bo.mapped,
        0 <= i < bo.gpas.len(),
        0 <= j < 4096,
        4096 * i + j < bo.size,
        4096 * i + j < bo.mapped,
        forall|a: int, b: int|
            0 <= a < b < bo.gpas.len() ==> (#[trigger] bo.gpas[a]) + 4096 <= (
            #[trigger] bo.gpas[b]) || bo.gpas[b] + 4096 <= bo.gpas[a],
    ensures
        drained(bo, host, guest, bo.gpas.len())(bo.gpas[i] + j) == host[4096 * i + j],
{
    let n = bo.gpas.len();
    assert(pages_apart(bo));
    law_drained_to_the_guest(bo, host, guest, n);
    assert(bo.page_offset(i) == 4096 * i);
    assert(drained(bo, host, guest, n)(bo.gpas[i] + j) == host[bo.page_offset(i) + j]);
}

} // verus!
