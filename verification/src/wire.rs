//! Fixed-width integers as big-endian bytes.
//!
//! A signed number travels as the unsigned number with the same bit
//! pattern (two's complement).

use vstd::prelude::*;

verus! {

/// The four bytes of an unsigned 32-bit number, most significant first.
#[verifier::opaque]
pub open spec fn u32_be(v: u32) -> Seq<u8> {
    seq![
        (v / 0x100_0000) as u8,
        (v / 0x1_0000 % 0x100) as u8,
        (v / 0x100 % 0x100) as u8,
        (v % 0x100) as u8,
    ]
}

/// The number that four big-endian bytes denote.
#[verifier::opaque]
pub open spec fn be_u32(b: Seq<u8>) -> u32
    recommends
        b.len() == 4,
{
    (b[0] * 0x100_0000 + b[1] * 0x1_0000 + b[2] * 0x100 + b[3]) as u32
}

/// The eight bytes of an unsigned 64-bit number, most significant first.
#[verifier::opaque]
pub open spec fn u64_be(v: u64) -> Seq<u8> {
    u32_be((v / 0x1_0000_0000) as u32) + u32_be((v % 0x1_0000_0000) as u32)
}

/// The number that eight big-endian bytes denote.
#[verifier::opaque]
pub open spec fn be_u64(b: Seq<u8>) -> u64
    recommends
        b.len() == 8,
{
    (be_u32(b.subrange(0, 4)) * 0x1_0000_0000 + be_u32(b.subrange(4, 8))) as u64
}

/// The unsigned number with the bit pattern of a signed one.
#[verifier::opaque]
pub open spec fn bits_of(v: i64) -> u64 {
    if v >= 0 {
        v as u64
    } else {
        (v + 0x1_0000_0000_0000_0000) as u64
    }
}

/// The signed number with the bit pattern of an unsigned one.
#[verifier::opaque]
pub open spec fn signed_of(u: u64) -> i64 {
    if u < 0x8000_0000_0000_0000 {
        u as i64
    } else {
        (u - 0x1_0000_0000_0000_0000) as i64
    }
}

/// The eight bytes of a signed 64-bit number.
#[verifier::opaque]
pub open spec fn i64_be(v: i64) -> Seq<u8> {
    u64_be(bits_of(v))
}

/// The signed number that eight big-endian bytes denote.
#[verifier::opaque]
pub open spec fn be_i64(b: Seq<u8>) -> i64
    recommends
        b.len() == 8,
{
    signed_of(be_u64(b))
}

/// Four bytes are written for a number, and they denote it.
pub proof fn lemma_u32_be_round_trip(v: u32)
    ensures
        u32_be(v).len() == 4,
        be_u32(u32_be(v)) == v,
{
    reveal(u32_be);
    reveal(be_u32);
}

/// Eight bytes are written for a number, and they denote it.
pub proof fn lemma_u64_be_round_trip(v: u64)
    ensures
        u64_be(v).len() == 8,
        be_u64(u64_be(v)) == v,
{
    reveal(u64_be);
    reveal(be_u64);
    let hi = (v / 0x1_0000_0000) as u32;
    let lo = (v % 0x1_0000_0000) as u32;
    lemma_u32_be_round_trip(hi);
    lemma_u32_be_round_trip(lo);
    assert(u64_be(v).subrange(0, 4) =~= u32_be(hi));
    assert(u64_be(v).subrange(4, 8) =~= u32_be(lo));
}

/// Eight bytes are written for a signed number, and they denote it.
pub proof fn lemma_i64_be_round_trip(v: i64)
    ensures
        i64_be(v).len() == 8,
        be_i64(i64_be(v)) == v,
{
    reveal(i64_be);
    reveal(be_i64);
    reveal(bits_of);
    reveal(signed_of);
    lemma_u64_be_round_trip(bits_of(v));
}

/// Reads four bytes at `at` as a big-endian number.
pub fn read_u32_be(bytes: &[u8], at: usize) -> (v: u32)
    requires
        at + 4 <= bytes.len(),
    ensures
        v == be_u32(bytes@.subrange(at as int, at + 4)),
{
    reveal(be_u32);
    let b0: u32 = bytes[at] as u32;
    let b1: u32 = bytes[at + 1] as u32;
    let b2: u32 = bytes[at + 2] as u32;
    let b3: u32 = bytes[at + 3] as u32;
    b0 * 0x100_0000 + b1 * 0x1_0000 + b2 * 0x100 + b3
}

/// Reads eight bytes at `at` as a big-endian number.
pub fn read_u64_be(bytes: &[u8], at: usize) -> (v: u64)
    requires
        at + 8 <= bytes.len(),
    ensures
        v == be_u64(bytes@.subrange(at as int, at + 8)),
{
    reveal(be_u64);
    let hi: u64 = read_u32_be(bytes, at) as u64;
    let lo: u64 = read_u32_be(bytes, at + 4) as u64;
    proof {
        let b = bytes@.subrange(at as int, at + 8);
        assert(b.subrange(0, 4) =~= bytes@.subrange(at as int, at + 4));
        assert(b.subrange(4, 8) =~= bytes@.subrange(at + 4, at + 8));
    }
    hi * 0x1_0000_0000 + lo
}

/// Reads eight bytes at `at` as a signed big-endian number.
pub fn read_i64_be(bytes: &[u8], at: usize) -> (v: i64)
    requires
        at + 8 <= bytes.len(),
    ensures
        v == be_i64(bytes@.subrange(at as int, at + 8)),
{
    reveal(be_i64);
    reveal(signed_of);
    let u = read_u64_be(bytes, at);
    if u < 0x8000_0000_0000_0000 {
        u as i64
    } else {
        (u - 0x8000_0000_0000_0000) as i64 + i64::MIN
    }
}

/// Appends the four big-endian bytes of `v`.
pub fn push_u32_be(w: &mut Vec<u8>, v: u32)
    ensures
        final(w)@ == old(w)@ + u32_be(v),
{
    reveal(u32_be);
    w.push((v / 0x100_0000) as u8);
    w.push((v / 0x1_0000 % 0x100) as u8);
    w.push((v / 0x100 % 0x100) as u8);
    w.push((v % 0x100) as u8);
    assert(w@ =~= old(w)@ + u32_be(v));
}

/// Appends the eight big-endian bytes of `v`.
pub fn push_u64_be(w: &mut Vec<u8>, v: u64)
    ensures
        final(w)@ == old(w)@ + u64_be(v),
{
    reveal(u64_be);
    push_u32_be(w, (v / 0x1_0000_0000) as u32);
    push_u32_be(w, (v % 0x1_0000_0000) as u32);
    assert(w@ =~= old(w)@ + u64_be(v));
}

/// Appends the eight big-endian bytes of a signed number.
pub fn push_i64_be(w: &mut Vec<u8>, v: i64)
    ensures
        final(w)@ == old(w)@ + i64_be(v),
{
    reveal(i64_be);
    reveal(bits_of);
    let u: u64 = if v >= 0 {
        v as u64
    } else {
        (v - i64::MIN) as u64 + 0x8000_0000_0000_0000
    };
    push_u64_be(w, u);
}

} // verus!
