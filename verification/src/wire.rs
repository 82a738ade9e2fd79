//! # Fixed-width integers on the wire
//!
//! Reading and writing of 16, 32, 64 and 128 bit integers in either byte
//! order. A wide integer is made of two halves of the next smaller width, so
//! each width needs only one small argument about division and remainder.
use crate::dlt::Endianness;
use vstd::prelude::*;

verus! {

/// The 16 bit number stored in `s[i]` and `s[i + 1]`.
pub open spec fn spec_u16_at(s: Seq<u8>, i: int, e: Endianness) -> u16
    recommends
        0 <= i,
        i + 2 <= s.len(),
{
    match e {
        Endianness::Big => (s[i] as int * 0x100 + s[i + 1] as int) as u16,
        Endianness::Little => (s[i + 1] as int * 0x100 + s[i] as int) as u16,
    }
}

/// The 32 bit number stored in the four bytes from `s[i]` on.
#[verifier::opaque]
pub open spec fn spec_u32_at(s: Seq<u8>, i: int, e: Endianness) -> u32
    recommends
        0 <= i,
        i + 4 <= s.len(),
{
    match e {
        Endianness::Big => (spec_u16_at(s, i, e) as int * 0x1_0000 + spec_u16_at(s, i + 2, e) as int) as u32,
        Endianness::Little => (spec_u16_at(s, i + 2, e) as int * 0x1_0000 + spec_u16_at(s, i, e) as int) as u32,
    }
}

/// The 64 bit number stored in the eight bytes from `s[i]` on.
#[verifier::opaque]
pub open spec fn spec_u64_at(s: Seq<u8>, i: int, e: Endianness) -> u64
    recommends
        0 <= i,
        i + 8 <= s.len(),
{
    match e {
        Endianness::Big => (spec_u32_at(s, i, e) as int * 0x1_0000_0000 + spec_u32_at(s, i + 4, e) as int) as u64,
        Endianness::Little => (spec_u32_at(s, i + 4, e) as int * 0x1_0000_0000 + spec_u32_at(s, i, e) as int) as u64,
    }
}

/// The 128 bit number stored in the sixteen bytes from `s[i]` on.
#[verifier::opaque]
pub open spec fn spec_u128_at(s: Seq<u8>, i: int, e: Endianness) -> u128
    recommends
        0 <= i,
        i + 16 <= s.len(),
{
    match e {
        Endianness::Big => (spec_u64_at(s, i, e) as int * 0x1_0000_0000_0000_0000 + spec_u64_at(s, i + 8, e) as int) as u128,
        Endianness::Little => (spec_u64_at(s, i + 8, e) as int * 0x1_0000_0000_0000_0000 + spec_u64_at(s, i, e) as int) as u128,
    }
}

/// The two bytes that store `v`.
pub open spec fn spec_u16_bytes(v: u16, e: Endianness) -> Seq<u8> {
    match e {
        Endianness::Big => seq![(v / 0x100) as u8, (v % 0x100) as u8],
        Endianness::Little => seq![(v % 0x100) as u8, (v / 0x100) as u8],
    }
}

/// The four bytes that store `v`.
#[verifier::opaque]
pub open spec fn spec_u32_bytes(v: u32, e: Endianness) -> Seq<u8> {
    let hi = spec_u16_bytes((v / 0x1_0000) as u16, e);
    let lo = spec_u16_bytes((v % 0x1_0000) as u16, e);
    match e {
        Endianness::Big => hi + lo,
        Endianness::Little => lo + hi,
    }
}

/// The eight bytes that store `v`.
#[verifier::opaque]
pub open spec fn spec_u64_bytes(v: u64, e: Endianness) -> Seq<u8> {
    let hi = spec_u32_bytes((v / 0x1_0000_0000) as u32, e);
    let lo = spec_u32_bytes((v % 0x1_0000_0000) as u32, e);
    match e {
        Endianness::Big => hi + lo,
        Endianness::Little => lo + hi,
    }
}

/// The sixteen bytes that store `v`.
#[verifier::opaque]
pub open spec fn spec_u128_bytes(v: u128, e: Endianness) -> Seq<u8> {
    let hi = spec_u64_bytes((v / 0x1_0000_0000_0000_0000) as u64, e);
    let lo = spec_u64_bytes((v % 0x1_0000_0000_0000_0000) as u64, e);
    match e {
        Endianness::Big => hi + lo,
        Endianness::Little => lo + hi,
    }
}

pub proof fn lemma_u16_bytes_len(v: u16, e: Endianness)
    ensures
        spec_u16_bytes(v, e).len() == 2,
{
}

pub proof fn lemma_u32_bytes_len(v: u32, e: Endianness)
    ensures
        spec_u32_bytes(v, e).len() == 4,
{
    reveal(spec_u32_bytes);
}

pub proof fn lemma_u64_bytes_len(v: u64, e: Endianness)
    ensures
        spec_u64_bytes(v, e).len() == 8,
{
    reveal(spec_u64_bytes);
    lemma_u32_bytes_len((v / 0x1_0000_0000) as u32, e);
    lemma_u32_bytes_len((v % 0x1_0000_0000) as u32, e);
}

pub proof fn lemma_u128_bytes_len(v: u128, e: Endianness)
    ensures
        spec_u128_bytes(v, e).len() == 16,
{
    reveal(spec_u128_bytes);
    lemma_u64_bytes_len((v / 0x1_0000_0000_0000_0000) as u64, e);
    lemma_u64_bytes_len((v % 0x1_0000_0000_0000_0000) as u64, e);
}

/// A 16 bit read sees only the two bytes it covers.
pub proof fn lemma_u16_at_local(s: Seq<u8>, i: int, t: Seq<u8>, j: int, e: Endianness)
    requires
        0 <= i,
        i + 2 <= s.len(),
        0 <= j,
        j + 2 <= t.len(),
        s.subrange(i, i + 2) == t.subrange(j, j + 2),
    ensures
        spec_u16_at(s, i, e) == spec_u16_at(t, j, e),
{
    assert(s[i] == s.subrange(i, i + 2)[0]);
    assert(s[i + 1] == s.subrange(i, i + 2)[1]);
    assert(t[j] == t.subrange(j, j + 2)[0]);
    assert(t[j + 1] == t.subrange(j, j + 2)[1]);
}

/// A 32 bit read sees only the four bytes it covers.
pub proof fn lemma_u32_at_local(s: Seq<u8>, i: int, t: Seq<u8>, j: int, e: Endianness)
    requires
        0 <= i,
        i + 4 <= s.len(),
        0 <= j,
        j + 4 <= t.len(),
        s.subrange(i, i + 4) == t.subrange(j, j + 4),
    ensures
        spec_u32_at(s, i, e) == spec_u32_at(t, j, e),
{
    reveal(spec_u32_at);
    assert(s.subrange(i, i + 2) =~= s.subrange(i, i + 4).subrange(0, 2));
    assert(t.subrange(j, j + 2) =~= t.subrange(j, j + 4).subrange(0, 2));
    assert(s.subrange(i + 2, i + 4) =~= s.subrange(i, i + 4).subrange(2, 4));
    assert(t.subrange(j + 2, j + 4) =~= t.subrange(j, j + 4).subrange(2, 4));
    lemma_u16_at_local(s, i, t, j, e);
    lemma_u16_at_local(s, i + 2, t, j + 2, e);
}

/// A 64 bit read sees only the eight bytes it covers.
pub proof fn lemma_u64_at_local(s: Seq<u8>, i: int, t: Seq<u8>, j: int, e: Endianness)
    requires
        0 <= i,
        i + 8 <= s.len(),
        0 <= j,
        j + 8 <= t.len(),
        s.subrange(i, i + 8) == t.subrange(j, j + 8),
    ensures
        spec_u64_at(s, i, e) == spec_u64_at(t, j, e),
{
    reveal(spec_u64_at);
    assert(s.subrange(i, i + 4) =~= s.subrange(i, i + 8).subrange(0, 4));
    assert(t.subrange(j, j + 4) =~= t.subrange(j, j + 8).subrange(0, 4));
    assert(s.subrange(i + 4, i + 8) =~= s.subrange(i, i + 8).subrange(4, 8));
    assert(t.subrange(j + 4, j + 8) =~= t.subrange(j, j + 8).subrange(4, 8));
    lemma_u32_at_local(s, i, t, j, e);
    lemma_u32_at_local(s, i + 4, t, j + 4, e);
}

/// A 128 bit read sees only the sixteen bytes it covers.
pub proof fn lemma_u128_at_local(s: Seq<u8>, i: int, t: Seq<u8>, j: int, e: Endianness)
    requires
        0 <= i,
        i + 16 <= s.len(),
        0 <= j,
        j + 16 <= t.len(),
        s.subrange(i, i + 16) == t.subrange(j, j + 16),
    ensures
        spec_u128_at(s, i, e) == spec_u128_at(t, j, e),
{
    reveal(spec_u128_at);
    assert(s.subrange(i, i + 8) =~= s.subrange(i, i + 16).subrange(0, 8));
    assert(t.subrange(j, j + 8) =~= t.subrange(j, j + 16).subrange(0, 8));
    assert(s.subrange(i + 8, i + 16) =~= s.subrange(i, i + 16).subrange(8, 16));
    assert(t.subrange(j + 8, j + 16) =~= t.subrange(j, j + 16).subrange(8, 16));
    lemma_u64_at_local(s, i, t, j, e);
    lemma_u64_at_local(s, i + 8, t, j + 8, e);
}

/// Reading the bytes of a 16 bit number gives the number back.
pub proof fn lemma_u16_roundtrip(v: u16, e: Endianness)
    ensures
        spec_u16_at(spec_u16_bytes(v, e), 0, e) == v,
{
}

/// Reading the bytes of a 32 bit number gives the number back.
pub proof fn lemma_u32_roundtrip(v: u32, e: Endianness)
    ensures
        spec_u32_at(spec_u32_bytes(v, e), 0, e) == v,
{
    reveal(spec_u32_at);
    reveal(spec_u32_bytes);
    let hi = (v / 0x1_0000) as u16;
    let lo = (v % 0x1_0000) as u16;
    let b = spec_u32_bytes(v, e);
    lemma_u16_roundtrip(hi, e);
    lemma_u16_roundtrip(lo, e);
    match e {
        Endianness::Big => {
            assert(b.subrange(0, 2) =~= spec_u16_bytes(hi, e).subrange(0, 2));
            assert(b.subrange(2, 4) =~= spec_u16_bytes(lo, e).subrange(0, 2));
            lemma_u16_at_local(b, 0, spec_u16_bytes(hi, e), 0, e);
            lemma_u16_at_local(b, 2, spec_u16_bytes(lo, e), 0, e);
        },
        Endianness::Little => {
            assert(b.subrange(0, 2) =~= spec_u16_bytes(lo, e).subrange(0, 2));
            assert(b.subrange(2, 4) =~= spec_u16_bytes(hi, e).subrange(0, 2));
            lemma_u16_at_local(b, 0, spec_u16_bytes(lo, e), 0, e);
            lemma_u16_at_local(b, 2, spec_u16_bytes(hi, e), 0, e);
        },
    }
}

/// Reading the bytes of a 64 bit number gives the number back.
pub proof fn lemma_u64_roundtrip(v: u64, e: Endianness)
    ensures
        spec_u64_at(spec_u64_bytes(v, e), 0, e) == v,
{
    reveal(spec_u64_at);
    reveal(spec_u64_bytes);
    let hi = (v / 0x1_0000_0000) as u32;
    let lo = (v % 0x1_0000_0000) as u32;
    let b = spec_u64_bytes(v, e);
    lemma_u32_roundtrip(hi, e);
    lemma_u32_roundtrip(lo, e);
    lemma_u32_bytes_len(hi, e);
    lemma_u32_bytes_len(lo, e);
    match e {
        Endianness::Big => {
            assert(b.subrange(0, 4) =~= spec_u32_bytes(hi, e).subrange(0, 4));
            assert(b.subrange(4, 8) =~= spec_u32_bytes(lo, e).subrange(0, 4));
            lemma_u32_at_local(b, 0, spec_u32_bytes(hi, e), 0, e);
            lemma_u32_at_local(b, 4, spec_u32_bytes(lo, e), 0, e);
        },
        Endianness::Little => {
            assert(b.subrange(0, 4) =~= spec_u32_bytes(lo, e).subrange(0, 4));
            assert(b.subrange(4, 8) =~= spec_u32_bytes(hi, e).subrange(0, 4));
            lemma_u32_at_local(b, 0, spec_u32_bytes(lo, e), 0, e);
            lemma_u32_at_local(b, 4, spec_u32_bytes(hi, e), 0, e);
        },
    }
}

/// Reading the bytes of a 128 bit number gives the number back.
pub proof fn lemma_u128_roundtrip(v: u128, e: Endianness)
    ensures
        spec_u128_at(spec_u128_bytes(v, e), 0, e) == v,
{
    reveal(spec_u128_at);
    reveal(spec_u128_bytes);
    let hi = (v / 0x1_0000_0000_0000_0000) as u64;
    let lo = (v % 0x1_0000_0000_0000_0000) as u64;
    let b = spec_u128_bytes(v, e);
    lemma_u64_roundtrip(hi, e);
    lemma_u64_roundtrip(lo, e);
    lemma_u64_bytes_len(hi, e);
    lemma_u64_bytes_len(lo, e);
    match e {
        Endianness::Big => {
            assert(b.subrange(0, 8) =~= spec_u64_bytes(hi, e).subrange(0, 8));
            assert(b.subrange(8, 16) =~= spec_u64_bytes(lo, e).subrange(0, 8));
            lemma_u64_at_local(b, 0, spec_u64_bytes(hi, e), 0, e);
            lemma_u64_at_local(b, 8, spec_u64_bytes(lo, e), 0, e);
        },
        Endianness::Little => {
            assert(b.subrange(0, 8) =~= spec_u64_bytes(lo, e).subrange(0, 8));
            assert(b.subrange(8, 16) =~= spec_u64_bytes(hi, e).subrange(0, 8));
            lemma_u64_at_local(b, 0, spec_u64_bytes(lo, e), 0, e);
            lemma_u64_at_local(b, 8, spec_u64_bytes(hi, e), 0, e);
        },
    }
}

/// Read a 16 bit number at index `i`.
pub fn read_u16_at(input: &[u8], i: usize, e: Endianness) -> (v: u16)
    requires
        i + 2 <= input@.len(),
    ensures
        v == spec_u16_at(input@, i as int, e),
{
    let a: u16 = input[i] as u16;
    let b: u16 = input[i + 1] as u16;
    match e {
        Endianness::Big => a * 0x100 + b,
        Endianness::Little => b * 0x100 + a,
    }
}

/// Read a 32 bit number at index `i`.
pub fn read_u32_at(input: &[u8], i: usize, e: Endianness) -> (v: u32)
    requires
        i + 4 <= input@.len(),
    ensures
        v == spec_u32_at(input@, i as int, e),
{
    proof {
        reveal(spec_u32_at);
    }
    let _len: usize = input.len();
    let a: u32 = read_u16_at(input, i, e) as u32;
    let b: u32 = read_u16_at(input, i + 2, e) as u32;
    match e {
        Endianness::Big => a * 0x1_0000 + b,
        Endianness::Little => b * 0x1_0000 + a,
    }
}

/// Read a 64 bit number at index `i`.
pub fn read_u64_at(input: &[u8], i: usize, e: Endianness) -> (v: u64)
    requires
        i + 8 <= input@.len(),
    ensures
        v == spec_u64_at(input@, i as int, e),
{
    proof {
        reveal(spec_u64_at);
    }
    let _len: usize = input.len();
    let a: u64 = read_u32_at(input, i, e) as u64;
    let b: u64 = read_u32_at(input, i + 4, e) as u64;
    match e {
        Endianness::Big => a * 0x1_0000_0000 + b,
        Endianness::Little => b * 0x1_0000_0000 + a,
    }
}

/// Read a 128 bit number at index `i`.
pub fn read_u128_at(input: &[u8], i: usize, e: Endianness) -> (v: u128)
    requires
        i + 16 <= input@.len(),
    ensures
        v == spec_u128_at(input@, i as int, e),
{
    proof {
        reveal(spec_u128_at);
    }
    let _len: usize = input.len();
    let a: u128 = read_u64_at(input, i, e) as u128;
    let b: u128 = read_u64_at(input, i + 8, e) as u128;
    match e {
        Endianness::Big => a * 0x1_0000_0000_0000_0000 + b,
        Endianness::Little => b * 0x1_0000_0000_0000_0000 + a,
    }
}

/// Append the two bytes of `v` to `buf`.
pub fn put_u16(buf: &mut Vec<u8>, v: u16, e: Endianness)
    ensures
        final(buf)@ == old(buf)@ + spec_u16_bytes(v, e),
{
    let hi: u8 = (v / 0x100) as u8;
    let lo: u8 = (v % 0x100) as u8;
    match e {
        Endianness::Big => {
            buf.push(hi);
            buf.push(lo);
        },
        Endianness::Little => {
            buf.push(lo);
            buf.push(hi);
        },
    }
    assert(buf@ =~= old(buf)@ + spec_u16_bytes(v, e));
}

/// Append the four bytes of `v` to `buf`.
pub fn put_u32(buf: &mut Vec<u8>, v: u32, e: Endianness)
    ensures
        final(buf)@ == old(buf)@ + spec_u32_bytes(v, e),
{
    proof {
        reveal(spec_u32_bytes);
    }
    let hi: u16 = (v / 0x1_0000) as u16;
    let lo: u16 = (v % 0x1_0000) as u16;
    match e {
        Endianness::Big => {
            put_u16(buf, hi, e);
            put_u16(buf, lo, e);
        },
        Endianness::Little => {
            put_u16(buf, lo, e);
            put_u16(buf, hi, e);
        },
    }
    assert(buf@ =~= old(buf)@ + spec_u32_bytes(v, e));
}

/// Append the eight bytes of `v` to `buf`.
pub fn put_u64(buf: &mut Vec<u8>, v: u64, e: Endianness)
    ensures
        final(buf)@ == old(buf)@ + spec_u64_bytes(v, e),
{
    proof {
        reveal(spec_u64_bytes);
    }
    let hi: u32 = (v / 0x1_0000_0000) as u32;
    let lo: u32 = (v % 0x1_0000_0000) as u32;
    match e {
        Endianness::Big => {
            put_u32(buf, hi, e);
            put_u32(buf, lo, e);
        },
        Endianness::Little => {
            put_u32(buf, lo, e);
            put_u32(buf, hi, e);
        },
    }
    assert(buf@ =~= old(buf)@ + spec_u64_bytes(v, e));
}

/// Append the sixteen bytes of `v` to `buf`.
pub fn put_u128(buf: &mut Vec<u8>, v: u128, e: Endianness)
    ensures
        final(buf)@ == old(buf)@ + spec_u128_bytes(v, e),
{
    proof {
        reveal(spec_u128_bytes);
    }
    let hi: u64 = (v / 0x1_0000_0000_0000_0000) as u64;
    let lo: u64 = (v % 0x1_0000_0000_0000_0000) as u64;
    match e {
        Endianness::Big => {
            put_u64(buf, hi, e);
            put_u64(buf, lo, e);
        },
        Endianness::Little => {
            put_u64(buf, lo, e);
            put_u64(buf, hi, e);
        },
    }
    assert(buf@ =~= old(buf)@ + spec_u128_bytes(v, e));
}

/// Two's complement reading of 8 bits, and back.
pub proof fn lemma_i8_roundtrip(v: i8)
    ensures
        (v as u8) as i8 == v,
{
    assert((v as u8) as i8 == v) by (bit_vector);
}

/// Two's complement reading of 16 bits, and back.
pub proof fn lemma_i16_roundtrip(v: i16)
    ensures
        (v as u16) as i16 == v,
{
    assert((v as u16) as i16 == v) by (bit_vector);
}

/// Two's complement reading of 32 bits, and back.
pub proof fn lemma_i32_roundtrip(v: i32)
    ensures
        (v as u32) as i32 == v,
{
    assert((v as u32) as i32 == v) by (bit_vector);
}

/// Two's complement reading of 64 bits, and back.
pub proof fn lemma_i64_roundtrip(v: i64)
    ensures
        (v as u64) as i64 == v,
{
    assert((v as u64) as i64 == v) by (bit_vector);
}

/// Two's complement reading of 128 bits, and back.
pub proof fn lemma_i128_roundtrip(v: i128)
    ensures
        (v as u128) as i128 == v,
{
    assert((v as u128) as i128 == v) by (bit_vector);
}

} // verus!
