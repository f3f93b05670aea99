//! Little-endian integers in byte sequences.

use vstd::prelude::*;

verus! {

/// The 32-bit word that `s` holds at `i`, least significant byte first.
pub open spec fn u32_at(s: Seq<u8>, i: int) -> u32 {
    (s[i] + 0x100 * s[i + 1] + 0x1_0000 * s[i + 2] + 0x100_0000 * s[i + 3]) as u32
}

/// The 64-bit word that `s` holds at `i`, least significant byte first.
pub open spec fn u64_at(s: Seq<u8>, i: int) -> u64 {
    (u32_at(s, i) + 0x1_0000_0000 * u32_at(s, i + 4)) as u64
}

/// The signed reading of a 64-bit word, in two's complement.
pub open spec fn signed(v: u64) -> i64 {
    if v < 0x8000_0000_0000_0000 {
        v as i64
    } else {
        (v - 0x1_0000_0000_0000_0000) as i64
    }
}

/// The unsigned 64-bit word that holds `v` in two's complement.
pub open spec fn unsigned64(v: i64) -> u64 {
    if v >= 0 {
        v as u64
    } else {
        (v + 0x1_0000_0000_0000_0000) as u64
    }
}

/// The unsigned word that holds `v` in two's complement.
pub open spec fn unsigned(v: i32) -> u32 {
    if v >= 0 {
        v as u32
    } else {
        (v + 0x1_0000_0000) as u32
    }
}

/// The four bytes of `v`, least significant first.
pub open spec fn le32(v: u32) -> Seq<u8> {
    seq![
        (v % 0x100) as u8,
        (v / 0x100 % 0x100) as u8,
        (v / 0x1_0000 % 0x100) as u8,
        (v / 0x100_0000) as u8,
    ]
}

/// The eight bytes of `v`, least significant first.
pub open spec fn le64(v: u64) -> Seq<u8> {
    le32((v % 0x1_0000_0000) as u32) + le32((v / 0x1_0000_0000) as u32)
}

/// Reads the 32-bit word at `i`.
pub fn read_u32(s: &[u8], i: usize) -> (v: u32)
    requires
        i + 4 <= s.len(),
    ensures
        v == u32_at(s@, i as int),
{
    s[i] as u32 + 0x100 * s[i + 1] as u32 + 0x1_0000 * s[i + 2] as u32 + 0x100_0000 * s[i + 3] as u32
}

/// Reads the 64-bit word at `i`.
pub fn read_u64(s: &[u8], i: usize) -> (v: u64)
    requires
        i + 8 <= s.len(),
    ensures
        v == u64_at(s@, i as int),
{
    let low: u32 = read_u32(s, i);
    let high: u32 = read_u32(s, i + 4);
    low as u64 + 0x1_0000_0000 * high as u64
}

/// Reads the signed 64-bit word at `i`.
pub fn read_i64(s: &[u8], i: usize) -> (v: i64)
    requires
        i + 8 <= s.len(),
    ensures
        v == signed(u64_at(s@, i as int)),
{
    as_signed(read_u64(s, i))
}

/// Reads a 64-bit word as a signed number.
pub fn as_signed(v: u64) -> (r: i64)
    ensures
        r == signed(v),
        v < 0x8000_0000_0000_0000 ==> r == v,
{
    if v < 0x8000_0000_0000_0000 {
        v as i64
    } else {
        (v - 0x8000_0000_0000_0000) as i64 + i64::MIN
    }
}

/// Reads a signed 32-bit number as an unsigned word.
pub fn as_unsigned(v: i32) -> (r: u32)
    ensures
        r == unsigned(v),
        v >= 0 ==> r == v,
{
    if v >= 0 {
        v as u32
    } else {
        (v as i64 + 0x1_0000_0000) as u32
    }
}

/// Appends the four bytes of `v`.
pub fn push_u32(out: &mut Vec<u8>, v: u32)
    ensures
        final(out)@ == old(out)@ + le32(v),
{
    out.push((v % 0x100) as u8);
    out.push((v / 0x100 % 0x100) as u8);
    out.push((v / 0x1_0000 % 0x100) as u8);
    out.push((v / 0x100_0000) as u8);
}

/// Appends the eight bytes of `v`.
pub fn push_u64(out: &mut Vec<u8>, v: u64)
    ensures
        final(out)@ == old(out)@ + le64(v),
{
    push_u32(out, (v % 0x1_0000_0000) as u32);
    push_u32(out, (v / 0x1_0000_0000) as u32);
}

/// A word reads back as it was written, wherever it stands among other bytes.
pub proof fn law_u32_round_trip(before: Seq<u8>, v: u32, after: Seq<u8>)
    ensures
        u32_at(before + le32(v) + after, before.len() as int) == v,
{
    let s = before + le32(v) + after;
    let i = before.len() as int;
    assert(s[i] == le32(v)[0] && s[i + 1] == le32(v)[1] && s[i + 2] == le32(v)[2] && s[i + 3]
        == le32(v)[3]);
}

/// A 64-bit word reads back as it was written, wherever it stands among other bytes.
pub proof fn law_u64_round_trip(before: Seq<u8>, v: u64, after: Seq<u8>)
    ensures
        u64_at(before + le64(v) + after, before.len() as int) == v,
{
    let low = (v % 0x1_0000_0000) as u32;
    let high = (v / 0x1_0000_0000) as u32;
    law_u32_round_trip(before, low, le32(high) + after);
    law_u32_round_trip(before + le32(low), high, after);
    assert(before + le64(v) + after =~= before + le32(low) + (le32(high) + after));
    assert(before + le64(v) + after =~= before + le32(low) + le32(high) + after);
}

/// A signed number reads back as it was written, and only zero is written as zero.
pub proof fn law_signs(v: i64, e: i32)
    ensures
        signed(unsigned64(v)) == v,
        unsigned(e) == 0 <==> e == 0,
{
}

/// The lowest of the digits of a number to the base 256, and what the others make.
proof fn lemma_lowest_digit(v: int, a: int, rest: int)
    requires
        v == a + 0x100 * rest,
        0 <= a < 0x100,
    ensures
        v % 0x100 == a,
        v / 0x100 == rest,
{
}

/// A word's bytes are the digits of its value to the base 256, the first byte the lowest digit, and
/// the first half of a long word is its lower half.
pub proof fn law_words_hold_their_bytes(s: Seq<u8>, i: int)
    ensures
        u32_at(s, i) % 0x100 == s[i],
        u32_at(s, i) / 0x100 % 0x100 == s[i + 1],
        u32_at(s, i) / 0x100 / 0x100 % 0x100 == s[i + 2],
        u32_at(s, i) / 0x100 / 0x100 / 0x100 == s[i + 3],
        u64_at(s, i) % 0x1_0000_0000 == u32_at(s, i),
        u64_at(s, i) / 0x1_0000_0000 == u32_at(s, i + 4),
{
    let v = u32_at(s, i) as int;
    let (a, b, c, d) = (s[i] as int, s[i + 1] as int, s[i + 2] as int, s[i + 3] as int);
    assert(v == a + 0x100 * (b + 0x100 * (c + 0x100 * d)));
    lemma_lowest_digit(v, a, b + 0x100 * (c + 0x100 * d));
    lemma_lowest_digit(b + 0x100 * (c + 0x100 * d), b, c + 0x100 * d);
    lemma_lowest_digit(c + 0x100 * d, c, d);
    lemma_halves(u32_at(s, i), u32_at(s, i + 4));
}

/// Two halves of a long word.
proof fn lemma_halves(low: u32, high: u32)
    ensures
        (low + 0x1_0000_0000 * high) as u64 % 0x1_0000_0000 == low,
        (low + 0x1_0000_0000 * high) as u64 / 0x1_0000_0000 == high,
{
}

/// The bytes that are written for a word add up to it, each weighed by its place.
pub proof fn law_bytes_add_up(v: u32)
    ensures
        le32(v).len() == 4,
        le32(v)[0] + 0x100 * le32(v)[1] + 0x1_0000 * le32(v)[2] + 0x100_0000 * le32(v)[3] == v,
{
}

/// The bytes that are written for a long word are those of its lower half and then those of its upper
/// half.
pub proof fn law_halves_in_order(low: u32, high: u32)
    ensures
        le64((low + 0x1_0000_0000 * high) as u64) == le32(low) + le32(high),
{
    lemma_halves(low, high);
}

/// A number that both readings have is the same in both; any other differs by the range of the type.
pub proof fn law_readings_agree(v: u64, w: i64, e: i32)
    ensures
        v < 0x8000_0000_0000_0000 ==> signed(v) == v,
        v >= 0x8000_0000_0000_0000 ==> v - signed(v) == 0x1_0000_0000_0000_0000,
        w >= 0 ==> unsigned64(w) == w,
        w < 0 ==> unsigned64(w) - w == 0x1_0000_0000_0000_0000,
        e >= 0 ==> unsigned(e) == e,
        e < 0 ==> unsigned(e) - e == 0x1_0000_0000,
{
}

} // verus!
