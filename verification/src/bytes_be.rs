//! Big-endian encodings of the fixed-width integers that the wire protocol
//! carries, with exact specifications and round-trip lemmas.

use vstd::prelude::*;

verus! {

/// The two big-endian bytes of a `u16`.
pub open spec fn spec_u16_be(x: u16) -> Seq<u8> {
    seq![(x >> 8) as u8, x as u8]
}

/// The `u16` read from two big-endian bytes.
pub open spec fn spec_u16_from_be(s: Seq<u8>) -> u16
    recommends
        s.len() == 2,
{
    (s[0] as u16) << 8 | (s[1] as u16)
}

/// The four big-endian bytes of a `u32`.
pub open spec fn spec_u32_be(x: u32) -> Seq<u8> {
    seq![(x >> 24) as u8, (x >> 16) as u8, (x >> 8) as u8, x as u8]
}

/// The `u32` read from four big-endian bytes.
pub open spec fn spec_u32_from_be(s: Seq<u8>) -> u32
    recommends
        s.len() == 4,
{
    (s[0] as u32) << 24 | (s[1] as u32) << 16 | (s[2] as u32) << 8 | (s[3] as u32)
}

/// The eight big-endian bytes of a `u64`.
pub open spec fn spec_u64_be(x: u64) -> Seq<u8> {
    seq![
        (x >> 56) as u8,
        (x >> 48) as u8,
        (x >> 40) as u8,
        (x >> 32) as u8,
        (x >> 24) as u8,
        (x >> 16) as u8,
        (x >> 8) as u8,
        x as u8,
    ]
}

/// The `u64` read from eight big-endian bytes.
pub open spec fn spec_u64_from_be(s: Seq<u8>) -> u64
    recommends
        s.len() == 8,
{
    (s[0] as u64) << 56 | (s[1] as u64) << 48 | (s[2] as u64) << 40 | (s[3] as u64) << 32 | (
    s[4] as u64) << 24 | (s[5] as u64) << 16 | (s[6] as u64) << 8 | (s[7] as u64)
}

/// The eight big-endian bytes of an `i64` (two's complement).
pub open spec fn spec_i64_be(x: i64) -> Seq<u8> {
    spec_u64_be(x as u64)
}

/// The `i64` read from eight big-endian bytes (two's complement).
pub open spec fn spec_i64_from_be(s: Seq<u8>) -> i64
    recommends
        s.len() == 8,
{
    spec_u64_from_be(s) as i64
}

pub proof fn lemma_u16_be_round_trip(x: u16)
    ensures
        spec_u16_from_be(spec_u16_be(x)) == x,
{
    let s = spec_u16_be(x);
    assert(((x >> 8) as u8 as u16) << 8 | (x as u8 as u16) == x) by (bit_vector);
}

pub proof fn lemma_u32_be_round_trip(x: u32)
    ensures
        spec_u32_from_be(spec_u32_be(x)) == x,
{
    assert(((x >> 24) as u8 as u32) << 24 | ((x >> 16) as u8 as u32) << 16 | ((x
        >> 8) as u8 as u32) << 8 | (x as u8 as u32) == x) by (bit_vector);
}

pub proof fn lemma_u64_be_round_trip(x: u64)
    ensures
        spec_u64_from_be(spec_u64_be(x)) == x,
{
    assert(((x >> 56) as u8 as u64) << 56 | ((x >> 48) as u8 as u64) << 48 | ((x
        >> 40) as u8 as u64) << 40 | ((x >> 32) as u8 as u64) << 32 | ((x >> 24) as u8 as u64) << 24
        | ((x >> 16) as u8 as u64) << 16 | ((x >> 8) as u8 as u64) << 8 | (x as u8 as u64)
        == x) by (bit_vector);
}

pub proof fn lemma_i64_be_round_trip(x: i64)
    ensures
        spec_i64_from_be(spec_i64_be(x)) == x,
{
    lemma_u64_be_round_trip(x as u64);
    assert(x as u64 as i64 == x) by (bit_vector);
}

/// Appends the two big-endian bytes of `x` to `buf`.
pub fn push_u16_be(buf: &mut Vec<u8>, x: u16)
    ensures
        final(buf)@ == old(buf)@ + spec_u16_be(x),
{
    buf.push((x >> 8) as u8);
    buf.push(x as u8);
    assert(final(buf)@ =~= old(buf)@ + spec_u16_be(x));
}

/// Appends the four big-endian bytes of `x` to `buf`.
pub fn push_u32_be(buf: &mut Vec<u8>, x: u32)
    ensures
        final(buf)@ == old(buf)@ + spec_u32_be(x),
{
    buf.push((x >> 24) as u8);
    buf.push((x >> 16) as u8);
    buf.push((x >> 8) as u8);
    buf.push(x as u8);
    assert(final(buf)@ =~= old(buf)@ + spec_u32_be(x));
}

/// Appends the eight big-endian bytes of `x` to `buf`.
pub fn push_u64_be(buf: &mut Vec<u8>, x: u64)
    ensures
        final(buf)@ == old(buf)@ + spec_u64_be(x),
{
    buf.push((x >> 56) as u8);
    buf.push((x >> 48) as u8);
    buf.push((x >> 40) as u8);
    buf.push((x >> 32) as u8);
    buf.push((x >> 24) as u8);
    buf.push((x >> 16) as u8);
    buf.push((x >> 8) as u8);
    buf.push(x as u8);
    assert(final(buf)@ =~= old(buf)@ + spec_u64_be(x));
}

/// Appends the eight big-endian bytes of `x` to `buf` (two's complement).
pub fn push_i64_be(buf: &mut Vec<u8>, x: i64)
    ensures
        final(buf)@ == old(buf)@ + spec_i64_be(x),
{
    push_u64_be(buf, x as u64);
}

/// Reads a big-endian `u16` from `s[off..off + 2]`.
pub fn read_u16_at(s: &[u8], off: usize) -> (x: u16)
    requires
        off + 2 <= s@.len(),
    ensures
        x == spec_u16_from_be(s@.subrange(off as int, off + 2)),
{
    let x = (s[off] as u16) << 8 | (s[off + 1] as u16);
    proof {
        let sub = s@.subrange(off as int, off + 2);
        assert(sub[0] == s@[off as int] && sub[1] == s@[off + 1]);
    }
    x
}

/// Reads a big-endian `u32` from `s[off..off + 4]`.
pub fn read_u32_at(s: &[u8], off: usize) -> (x: u32)
    requires
        off + 4 <= s@.len(),
    ensures
        x == spec_u32_from_be(s@.subrange(off as int, off + 4)),
{
    let x = (s[off] as u32) << 24 | (s[off + 1] as u32) << 16 | (s[off + 2] as u32) << 8 | (s[off
        + 3] as u32);
    proof {
        let sub = s@.subrange(off as int, off + 4);
        assert(sub[0] == s@[off as int] && sub[1] == s@[off + 1] && sub[2] == s@[off + 2] && sub[3]
            == s@[off + 3]);
    }
    x
}

/// Reads a big-endian `u64` from `s[off..off + 8]`.
pub fn read_u64_at(s: &[u8], off: usize) -> (x: u64)
    requires
        off + 8 <= s@.len(),
    ensures
        x == spec_u64_from_be(s@.subrange(off as int, off + 8)),
{
    let x = (s[off] as u64) << 56 | (s[off + 1] as u64) << 48 | (s[off + 2] as u64) << 40 | (s[off
        + 3] as u64) << 32 | (s[off + 4] as u64) << 24 | (s[off + 5] as u64) << 16 | (s[off
        + 6] as u64) << 8 | (s[off + 7] as u64);
    proof {
        let sub = s@.subrange(off as int, off + 8);
        assert(forall|i: int| 0 <= i < 8 ==> sub[i] == s@[off + i]);
    }
    x
}

/// Reads a big-endian `i64` from `s[off..off + 8]` (two's complement).
pub fn read_i64_at(s: &[u8], off: usize) -> (x: i64)
    requires
        off + 8 <= s@.len(),
    ensures
        x == spec_i64_from_be(s@.subrange(off as int, off + 8)),
{
    read_u64_at(s, off) as i64
}

} // verus!
