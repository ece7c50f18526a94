//! Fixed-width integers on the wire.
//!
//! Every multi-byte field of the protocol is little-endian, except the port of
//! a network address, which is big-endian. Signed fields travel as their
//! two's-complement bit pattern.

use vstd::prelude::*;

verus! {

/// The two bytes of `x`, most significant first.
pub open spec fn spec_u16_be(x: u16) -> Seq<u8> {
    seq![(x / 0x100) as u8, (x % 0x100) as u8]
}

/// The value whose big-endian bytes are the first two of `s`.
pub open spec fn spec_u16_from_be(s: Seq<u8>) -> u16
    recommends
        s.len() >= 2,
{
    (s[0] as int * 0x100 + s[1] as int) as u16
}

/// The four bytes of `x`, least significant first.
pub open spec fn spec_u32_le(x: u32) -> Seq<u8> {
    seq![
        (x % 0x100) as u8,
        (x / 0x100 % 0x100) as u8,
        (x / 0x1_0000 % 0x100) as u8,
        (x / 0x100_0000) as u8,
    ]
}

/// The value whose little-endian bytes are the first four of `s`.
pub open spec fn spec_u32_from_le(s: Seq<u8>) -> u32
    recommends
        s.len() >= 4,
{
    (s[0] as int + s[1] as int * 0x100 + s[2] as int * 0x1_0000 + s[3] as int * 0x100_0000) as u32
}

/// The eight bytes of `x`, least significant first: the low half, then the high half.
pub open spec fn spec_u64_le(x: u64) -> Seq<u8> {
    spec_u32_le((x % 0x1_0000_0000) as u32) + spec_u32_le((x / 0x1_0000_0000) as u32)
}

/// The value whose little-endian bytes are the first eight of `s`.
pub open spec fn spec_u64_from_le(s: Seq<u8>) -> u64
    recommends
        s.len() >= 8,
{
    (spec_u32_from_le(s.subrange(0, 4)) as int + spec_u32_from_le(s.subrange(4, 8)) as int
        * 0x1_0000_0000) as u64
}

/// The two's-complement bit pattern of a 32-bit signed value.
pub open spec fn spec_i32_bits(x: i32) -> u32 {
    if x >= 0 {
        x as u32
    } else {
        (x + 0x1_0000_0000) as u32
    }
}

/// The signed value that a 32-bit pattern stands for.
pub open spec fn spec_i32_of_bits(u: u32) -> i32 {
    if u < 0x8000_0000 {
        u as i32
    } else {
        (u - 0x1_0000_0000) as i32
    }
}

/// The two's-complement bit pattern of a 64-bit signed value.
pub open spec fn spec_i64_bits(x: i64) -> u64 {
    if x >= 0 {
        x as u64
    } else {
        (x + 0x1_0000_0000_0000_0000) as u64
    }
}

/// The signed value that a 64-bit pattern stands for.
pub open spec fn spec_i64_of_bits(u: u64) -> i64 {
    if u < 0x8000_0000_0000_0000 {
        u as i64
    } else {
        (u - 0x1_0000_0000_0000_0000) as i64
    }
}

/// Little-endian bytes of a signed 32-bit value.
pub open spec fn spec_i32_le(x: i32) -> Seq<u8> {
    spec_u32_le(spec_i32_bits(x))
}

/// The signed value in the first four bytes of `s`.
pub open spec fn spec_i32_from_le(s: Seq<u8>) -> i32
    recommends
        s.len() >= 4,
{
    spec_i32_of_bits(spec_u32_from_le(s))
}

/// Little-endian bytes of a signed 64-bit value.
pub open spec fn spec_i64_le(x: i64) -> Seq<u8> {
    spec_u64_le(spec_i64_bits(x))
}

/// The signed value in the first eight bytes of `s`.
pub open spec fn spec_i64_from_le(s: Seq<u8>) -> i64
    recommends
        s.len() >= 8,
{
    spec_i64_of_bits(spec_u64_from_le(s))
}

/// The two written bytes read back as the same 16-bit value.
pub proof fn lemma_u16_round_trip(x: u16)
    ensures
        spec_u16_be(x).len() == 2,
        spec_u16_from_be(spec_u16_be(x)) == x,
{
}

/// The four written bytes read back as the same 32-bit value.
pub proof fn lemma_u32_round_trip(x: u32)
    ensures
        spec_u32_le(x).len() == 4,
        spec_u32_from_le(spec_u32_le(x)) == x,
{
}

/// The eight written bytes read back as the same 64-bit value.
pub proof fn lemma_u64_round_trip(x: u64)
    ensures
        spec_u64_le(x).len() == 8,
        spec_u64_from_le(spec_u64_le(x)) == x,
{
    let lo = (x % 0x1_0000_0000) as u32;
    let hi = (x / 0x1_0000_0000) as u32;
    let s = spec_u64_le(x);
    lemma_u32_round_trip(lo);
    lemma_u32_round_trip(hi);
    assert(s.subrange(0, 4) =~= spec_u32_le(lo));
    assert(s.subrange(4, 8) =~= spec_u32_le(hi));
    assert(x == lo + hi * 0x1_0000_0000);
}

/// The four written bytes read back as the same signed value.
pub proof fn lemma_i32_round_trip(x: i32)
    ensures
        spec_i32_le(x).len() == 4,
        spec_i32_from_le(spec_i32_le(x)) == x,
{
    lemma_u32_round_trip(spec_i32_bits(x));
}

/// The eight written bytes read back as the same signed value.
pub proof fn lemma_i64_round_trip(x: i64)
    ensures
        spec_i64_le(x).len() == 8,
        spec_i64_from_le(spec_i64_le(x)) == x,
{
    lemma_u64_round_trip(spec_i64_bits(x));
}

/// Appends the big-endian bytes of `x`.
pub fn put_u16_be(out: &mut Vec<u8>, x: u16)
    ensures
        final(out)@ == old(out)@ + spec_u16_be(x),
{
    out.push((x / 0x100) as u8);
    out.push((x % 0x100) as u8);
}

/// Appends the little-endian bytes of `x`.
pub fn put_u32_le(out: &mut Vec<u8>, x: u32)
    ensures
        final(out)@ == old(out)@ + spec_u32_le(x),
{
    out.push((x % 0x100) as u8);
    out.push((x / 0x100 % 0x100) as u8);
    out.push((x / 0x1_0000 % 0x100) as u8);
    out.push((x / 0x100_0000) as u8);
}

/// Appends the little-endian bytes of `x`.
pub fn put_u64_le(out: &mut Vec<u8>, x: u64)
    ensures
        final(out)@ == old(out)@ + spec_u64_le(x),
{
    put_u32_le(out, (x % 0x1_0000_0000) as u32);
    put_u32_le(out, (x / 0x1_0000_0000) as u32);
}

/// Appends the little-endian two's-complement bytes of `x`.
pub fn put_i32_le(out: &mut Vec<u8>, x: i32)
    ensures
        final(out)@ == old(out)@ + spec_i32_le(x),
{
    let bits: u32 = if x >= 0 {
        x as u32
    } else {
        (x as i64 + 0x1_0000_0000) as u32
    };
    put_u32_le(out, bits);
}

/// Appends the little-endian two's-complement bytes of `x`.
pub fn put_i64_le(out: &mut Vec<u8>, x: i64)
    ensures
        final(out)@ == old(out)@ + spec_i64_le(x),
{
    let bits: u64 = if x >= 0 {
        x as u64
    } else {
        (x as i128 + 0x1_0000_0000_0000_0000) as u64
    };
    put_u64_le(out, bits);
}

/// Appends `bytes` as they are.
pub fn put_bytes(out: &mut Vec<u8>, bytes: &[u8])
    ensures
        final(out)@ == old(out)@ + bytes@,
{
    out.extend_from_slice(bytes);
    assert(out@ =~= old(out)@ + bytes@);
}

/// Reads the big-endian value in the two bytes from `at`.
pub(crate) fn get_u16_be(bytes: &[u8], at: usize) -> (x: u16)
    requires
        at + 2 <= bytes@.len(),
    ensures
        x == spec_u16_from_be(bytes@.subrange(at as int, at + 2)),
{
    bytes[at] as u16 * 0x100 + bytes[at + 1] as u16
}

/// Reads the little-endian value in the four bytes from `at`.
pub(crate) fn get_u32_le(bytes: &[u8], at: usize) -> (x: u32)
    requires
        at + 4 <= bytes@.len(),
    ensures
        x == spec_u32_from_le(bytes@.subrange(at as int, at + 4)),
{
    bytes[at] as u32 + bytes[at + 1] as u32 * 0x100 + bytes[at + 2] as u32 * 0x1_0000 + bytes[at
        + 3] as u32 * 0x100_0000
}

/// Reads the little-endian value in the eight bytes from `at`.
pub(crate) fn get_u64_le(bytes: &[u8], at: usize) -> (x: u64)
    requires
        at + 8 <= bytes@.len(),
    ensures
        x == spec_u64_from_le(bytes@.subrange(at as int, at + 8)),
{
    proof {
        let s = bytes@.subrange(at as int, at + 8);
        assert(bytes@.len() == vstd::slice::spec_slice_len(bytes));
        assert(s.subrange(0, 4) =~= bytes@.subrange(at as int, at + 4));
        assert(s.subrange(4, 8) =~= bytes@.subrange(at + 4, at + 8));
    }
    let lo: u32 = get_u32_le(bytes, at);
    let hi: u32 = get_u32_le(bytes, at + 4);
    lo as u64 + hi as u64 * 0x1_0000_0000
}

/// Reads the signed little-endian value in the four bytes from `at`.
pub(crate) fn get_i32_le(bytes: &[u8], at: usize) -> (x: i32)
    requires
        at + 4 <= bytes@.len(),
    ensures
        x == spec_i32_from_le(bytes@.subrange(at as int, at + 4)),
{
    let bits: u32 = get_u32_le(bytes, at);
    if bits < 0x8000_0000 {
        bits as i32
    } else {
        (bits as i64 - 0x1_0000_0000) as i32
    }
}

/// Reads the signed little-endian value in the eight bytes from `at`.
pub(crate) fn get_i64_le(bytes: &[u8], at: usize) -> (x: i64)
    requires
        at + 8 <= bytes@.len(),
    ensures
        x == spec_i64_from_le(bytes@.subrange(at as int, at + 8)),
{
    let bits: u64 = get_u64_le(bytes, at);
    if bits < 0x8000_0000_0000_0000 {
        bits as i64
    } else {
        (bits as i128 - 0x1_0000_0000_0000_0000) as i64
    }
}

} // verus!
