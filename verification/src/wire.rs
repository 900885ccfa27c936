//! Big-endian integer fields of the IPP wire format.
//!
//! Every multi-byte number in an IPP message is big-endian: the `u16`
//! name and value lengths, the `u16` operation/status slot and the `u32`
//! request id of the header, and the `i32` bodies of integer, enum,
//! resolution and range values (two's complement).

use vstd::prelude::*;

verus! {

/// The two big-endian bytes of a 16-bit value.
pub open spec fn u16_be_bytes(x: u16) -> Seq<u8> {
    seq![(x / 256) as u8, (x % 256) as u8]
}

/// The 16-bit value of two big-endian bytes.
pub open spec fn u16_from_be(hi: u8, lo: u8) -> u16 {
    (hi * 256 + lo) as u16
}

pub proof fn lemma_u16_be_round_trip(x: u16)
    ensures
        u16_from_be(u16_be_bytes(x)[0], u16_be_bytes(x)[1]) == x,
{
    assert(x / 256 < 256) by (bit_vector);
    assert((x / 256) * 256 + (x % 256) == x) by (bit_vector);
}

/// The four big-endian bytes of a 32-bit value.
pub open spec fn u32_be_bytes(x: u32) -> Seq<u8> {
    seq![
        (x / 0x1000000) as u8,
        ((x / 0x10000) % 256) as u8,
        ((x / 256) % 256) as u8,
        (x % 256) as u8,
    ]
}

/// The 32-bit value of four big-endian bytes.
pub open spec fn u32_from_be(b0: u8, b1: u8, b2: u8, b3: u8) -> u32 {
    (b0 * 0x1000000 + b1 * 0x10000 + b2 * 256 + b3) as u32
}

pub proof fn lemma_u32_be_round_trip(x: u32)
    ensures
        u32_from_be(u32_be_bytes(x)[0], u32_be_bytes(x)[1], u32_be_bytes(x)[2], u32_be_bytes(x)[3])
            == x,
{
    assert(x / 0x1000000 < 256) by (bit_vector);
    assert((x / 0x1000000) * 0x1000000 + ((x / 0x10000) % 256) * 0x10000
        + ((x / 256) % 256) * 256 + (x % 256) == x) by (bit_vector);
}

/// The `u32` that holds the two's-complement bit pattern of an `i32`.
pub open spec fn i32_as_u32(x: i32) -> u32 {
    if x >= 0 {
        x as u32
    } else {
        (x + 0x1_0000_0000) as u32
    }
}

/// The `i32` whose two's-complement bit pattern is the given `u32`.
pub open spec fn u32_as_i32(x: u32) -> i32 {
    if x <= 0x7FFF_FFFF {
        x as i32
    } else {
        (x - 0x1_0000_0000) as i32
    }
}

pub proof fn lemma_i32_u32_round_trip(x: i32)
    ensures
        u32_as_i32(i32_as_u32(x)) == x,
{
}

/// The four big-endian bytes of a signed 32-bit value, two's complement.
pub open spec fn i32_be_bytes(x: i32) -> Seq<u8> {
    u32_be_bytes(i32_as_u32(x))
}

/// The signed 32-bit value of four big-endian bytes, two's complement.
pub open spec fn i32_from_be(b0: u8, b1: u8, b2: u8, b3: u8) -> i32 {
    u32_as_i32(u32_from_be(b0, b1, b2, b3))
}

pub proof fn lemma_i32_be_round_trip(x: i32)
    ensures
        i32_from_be(i32_be_bytes(x)[0], i32_be_bytes(x)[1], i32_be_bytes(x)[2], i32_be_bytes(x)[3])
            == x,
{
    lemma_u32_be_round_trip(i32_as_u32(x));
    lemma_i32_u32_round_trip(x);
}

/// Appends the two big-endian bytes of `x`.
pub fn push_u16(out: &mut Vec<u8>, x: u16)
    ensures
        final(out)@ == old(out)@ + u16_be_bytes(x),
{
    proof {
        assert(x / 256 < 256) by (bit_vector);
    }
    out.push((x / 256) as u8);
    out.push((x % 256) as u8);
    proof {
        assert(out@ =~= old(out)@ + u16_be_bytes(x));
    }
}

/// Appends the four big-endian bytes of `x`.
pub fn push_u32(out: &mut Vec<u8>, x: u32)
    ensures
        final(out)@ == old(out)@ + u32_be_bytes(x),
{
    proof {
        assert(x / 0x1000000 < 256) by (bit_vector);
    }
    out.push((x / 0x1000000) as u8);
    out.push(((x / 0x10000) % 256) as u8);
    out.push(((x / 256) % 256) as u8);
    out.push((x % 256) as u8);
    proof {
        assert(out@ =~= old(out)@ + u32_be_bytes(x));
    }
}

/// Appends the four big-endian two's-complement bytes of `x`.
pub fn push_i32(out: &mut Vec<u8>, x: i32)
    ensures
        final(out)@ == old(out)@ + i32_be_bytes(x),
{
    let u: u32 = if x >= 0 {
        x as u32
    } else {
        ((x as i64) + 0x1_0000_0000i64) as u32
    };
    assert(u == i32_as_u32(x));
    push_u32(out, u);
}

/// Copies the bytes of `b` from `start` (inclusive) to `end`
/// (exclusive).
pub fn copy_range(b: &Vec<u8>, start: usize, end: usize) -> (r: Vec<u8>)
    requires
        start <= end <= b@.len(),
    ensures
        r@ == b@.subrange(start as int, end as int),
{
    let mut r: Vec<u8> = Vec::new();
    let mut i: usize = start;
    while i < end
        invariant
            start <= i <= end <= b@.len(),
            r@ == b@.subrange(start as int, i as int),
        decreases end - i,
    {
        r.push(b[i]);
        proof {
            assert(b@.subrange(start as int, i as int).push(b@[i as int]) =~= b@.subrange(
                start as int,
                i as int + 1,
            ));
        }
        i = i + 1;
    }
    proof {
        assert(r@ =~= b@.subrange(start as int, end as int));
    }
    r
}

/// Reads the big-endian 16-bit value at `pos`.
pub fn read_u16_at(b: &Vec<u8>, pos: usize) -> (r: u16)
    requires
        pos + 2 <= b@.len(),
    ensures
        r == u16_from_be(b@[pos as int], b@[pos as int + 1]),
{
    let bound: usize = b.len();
    let hi = b[pos];
    let lo = b[pos + 1];
    proof {
        assert(pos + 1 < bound);
    }
    (hi as u16) * 256 + (lo as u16)
}

/// Reads the big-endian 32-bit value at `pos`.
pub fn read_u32_at(b: &Vec<u8>, pos: usize) -> (r: u32)
    requires
        pos + 4 <= b@.len(),
    ensures
        r == u32_from_be(b@[pos as int], b@[pos as int + 1], b@[pos as int + 2], b@[pos as int + 3]),
{
    let bound: usize = b.len();
    let b0 = b[pos];
    let b1 = b[pos + 1];
    let b2 = b[pos + 2];
    let b3 = b[pos + 3];
    (b0 as u32) * 0x1000000 + (b1 as u32) * 0x10000 + (b2 as u32) * 256 + (b3 as u32)
}

/// Reads the big-endian two's-complement 32-bit value at `pos`.
pub fn read_i32_at(b: &Vec<u8>, pos: usize) -> (r: i32)
    requires
        pos + 4 <= b@.len(),
    ensures
        r == i32_from_be(b@[pos as int], b@[pos as int + 1], b@[pos as int + 2], b@[pos as int + 3]),
{
    let u = read_u32_at(b, pos);
    if u <= 0x7FFF_FFFF {
        u as i32
    } else {
        ((u as i64) - 0x1_0000_0000i64) as i32
    }
}

} // verus!
