//! Little-endian encoding of fixed-width unsigned integers.

use vstd::prelude::*;

verus! {

pub open spec fn u16_le(x: u16) -> Seq<u8> {
    seq![(x & 0xff) as u8, ((x >> 8) & 0xff) as u8]
}

pub open spec fn u16_from_le(s: Seq<u8>) -> u16 {
    (s[0] as u16) | ((s[1] as u16) << 8)
}

pub open spec fn u32_le(x: u32) -> Seq<u8> {
    seq![
        (x & 0xff) as u8,
        ((x >> 8) & 0xff) as u8,
        ((x >> 16) & 0xff) as u8,
        ((x >> 24) & 0xff) as u8,
    ]
}

pub open spec fn u32_from_le(s: Seq<u8>) -> u32 {
    (s[0] as u32) | ((s[1] as u32) << 8) | ((s[2] as u32) << 16) | ((s[3] as u32) << 24)
}

pub open spec fn u64_le(x: u64) -> Seq<u8> {
    seq![
        (x & 0xff) as u8,
        ((x >> 8) & 0xff) as u8,
        ((x >> 16) & 0xff) as u8,
        ((x >> 24) & 0xff) as u8,
        ((x >> 32) & 0xff) as u8,
        ((x >> 40) & 0xff) as u8,
        ((x >> 48) & 0xff) as u8,
        ((x >> 56) & 0xff) as u8,
    ]
}

pub open spec fn u64_from_le(s: Seq<u8>) -> u64 {
    (s[0] as u64) | ((s[1] as u64) << 8) | ((s[2] as u64) << 16) | ((s[3] as u64) << 24) | ((
    s[4] as u64) << 32) | ((s[5] as u64) << 40) | ((s[6] as u64) << 48) | ((s[7] as u64) << 56)
}

pub proof fn lemma_u16_round_trip(x: u16)
    ensures
        u16_le(x).len() == 2,
        u16_from_le(u16_le(x)) == x,
{
    assert(x == (((x & 0xff) as u8) as u16 | ((((x >> 8) & 0xff) as u8) as u16) << 8))
        by (bit_vector);
}

pub proof fn lemma_u32_round_trip(x: u32)
    ensures
        u32_le(x).len() == 4,
        u32_from_le(u32_le(x)) == x,
{
    assert(x == (((x & 0xff) as u8) as u32 | ((((x >> 8) & 0xff) as u8) as u32) << 8 | ((((x
        >> 16) & 0xff) as u8) as u32) << 16 | ((((x >> 24) & 0xff) as u8) as u32) << 24))
        by (bit_vector);
}

pub proof fn lemma_u64_round_trip(x: u64)
    ensures
        u64_le(x).len() == 8,
        u64_from_le(u64_le(x)) == x,
{
    assert(x == (((x & 0xff) as u8) as u64 | ((((x >> 8) & 0xff) as u8) as u64) << 8 | ((((x
        >> 16) & 0xff) as u8) as u64) << 16 | ((((x >> 24) & 0xff) as u8) as u64) << 24 | ((((x
        >> 32) & 0xff) as u8) as u64) << 32 | ((((x >> 40) & 0xff) as u8) as u64) << 40 | ((((x
        >> 48) & 0xff) as u8) as u64) << 48 | ((((x >> 56) & 0xff) as u8) as u64) << 56))
        by (bit_vector);
}

pub proof fn lemma_u16_from_le_inverse(s: Seq<u8>)
    requires
        s.len() == 2,
    ensures
        u16_le(u16_from_le(s)) == s,
{
    let s0 = s[0];
    let s1 = s[1];
    let x = u16_from_le(s);
    assert(x == (s0 as u16) | ((s1 as u16) << 8));
    assert(x == (s0 as u16) | ((s1 as u16) << 8) ==> (x & 0xff) as u8 == s0 && ((x >> 8)
        & 0xff) as u8 == s1) by (bit_vector);
    assert(u16_le(x) =~= s);
}

pub proof fn lemma_u32_from_le_inverse(s: Seq<u8>)
    requires
        s.len() == 4,
    ensures
        u32_le(u32_from_le(s)) == s,
{
    let s0 = s[0];
    let s1 = s[1];
    let s2 = s[2];
    let s3 = s[3];
    let x = u32_from_le(s);
    assert(x == (s0 as u32) | ((s1 as u32) << 8) | ((s2 as u32) << 16) | ((s3 as u32) << 24));
    assert(x == (s0 as u32) | ((s1 as u32) << 8) | ((s2 as u32) << 16) | ((s3 as u32) << 24)
        ==> (x & 0xff) as u8 == s0 && ((x >> 8) & 0xff) as u8 == s1 && ((x >> 16) & 0xff) as u8
        == s2 && ((x >> 24) & 0xff) as u8 == s3) by (bit_vector);
    assert(u32_le(x) =~= s);
}

pub proof fn lemma_u64_from_le_inverse(s: Seq<u8>)
    requires
        s.len() == 8,
    ensures
        u64_le(u64_from_le(s)) == s,
{
    let s0 = s[0];
    let s1 = s[1];
    let s2 = s[2];
    let s3 = s[3];
    let s4 = s[4];
    let s5 = s[5];
    let s6 = s[6];
    let s7 = s[7];
    let x = u64_from_le(s);
    assert(x == (s0 as u64) | ((s1 as u64) << 8) | ((s2 as u64) << 16) | ((s3 as u64) << 24) | ((
    s4 as u64) << 32) | ((s5 as u64) << 40) | ((s6 as u64) << 48) | ((s7 as u64) << 56));
    assert(x == (s0 as u64) | ((s1 as u64) << 8) | ((s2 as u64) << 16) | ((s3 as u64) << 24) | ((
    s4 as u64) << 32) | ((s5 as u64) << 40) | ((s6 as u64) << 48) | ((s7 as u64) << 56) ==> (x
        & 0xff) as u8 == s0 && ((x >> 8) & 0xff) as u8 == s1 && ((x >> 16) & 0xff) as u8 == s2
        && ((x >> 24) & 0xff) as u8 == s3 && ((x >> 32) & 0xff) as u8 == s4 && ((x >> 40) & 0xff)
        as u8 == s5 && ((x >> 48) & 0xff) as u8 == s6 && ((x >> 56) & 0xff) as u8 == s7)
        by (bit_vector);
    assert(u64_le(x) =~= s);
}

/// The encoding of zero is all zero bytes.
pub proof fn lemma_le_of_zero()
    ensures
        u16_le(0) == seq![0u8, 0u8],
        u32_le(0) == seq![0u8, 0u8, 0u8, 0u8],
        u64_le(0) == seq![0u8, 0u8, 0u8, 0u8, 0u8, 0u8, 0u8, 0u8],
{
    assert(((0u16 & 0xff) as u8) == 0 && (((0u16 >> 8) & 0xff) as u8) == 0) by (bit_vector);
    assert(((0u32 & 0xff) as u8) == 0 && (((0u32 >> 8) & 0xff) as u8) == 0 && (((0u32 >> 16)
        & 0xff) as u8) == 0 && (((0u32 >> 24) & 0xff) as u8) == 0) by (bit_vector);
    assert(((0u64 & 0xff) as u8) == 0 && (((0u64 >> 8) & 0xff) as u8) == 0 && (((0u64 >> 16)
        & 0xff) as u8) == 0 && (((0u64 >> 24) & 0xff) as u8) == 0 && (((0u64 >> 32) & 0xff) as u8)
        == 0 && (((0u64 >> 40) & 0xff) as u8) == 0 && (((0u64 >> 48) & 0xff) as u8) == 0 && (((0u64
        >> 56) & 0xff) as u8) == 0) by (bit_vector);
    assert(u16_le(0) =~= seq![0u8, 0u8]);
    assert(u32_le(0) =~= seq![0u8, 0u8, 0u8, 0u8]);
    assert(u64_le(0) =~= seq![0u8, 0u8, 0u8, 0u8, 0u8, 0u8, 0u8, 0u8]);
}

pub fn push_u16_le(out: &mut Vec<u8>, x: u16)
    ensures
        final(out)@ == old(out)@ + u16_le(x),
{
    out.push((x & 0xff) as u8);
    out.push(((x >> 8) & 0xff) as u8);
    assert(out@ =~= old(out)@ + u16_le(x));
}

pub fn push_u32_le(out: &mut Vec<u8>, x: u32)
    ensures
        final(out)@ == old(out)@ + u32_le(x),
{
    out.push((x & 0xff) as u8);
    out.push(((x >> 8) & 0xff) as u8);
    out.push(((x >> 16) & 0xff) as u8);
    out.push(((x >> 24) & 0xff) as u8);
    assert(out@ =~= old(out)@ + u32_le(x));
}

pub fn push_u64_le(out: &mut Vec<u8>, x: u64)
    ensures
        final(out)@ == old(out)@ + u64_le(x),
{
    out.push((x & 0xff) as u8);
    out.push(((x >> 8) & 0xff) as u8);
    out.push(((x >> 16) & 0xff) as u8);
    out.push(((x >> 24) & 0xff) as u8);
    out.push(((x >> 32) & 0xff) as u8);
    out.push(((x >> 40) & 0xff) as u8);
    out.push(((x >> 48) & 0xff) as u8);
    out.push(((x >> 56) & 0xff) as u8);
    assert(out@ =~= old(out)@ + u64_le(x));
}

pub fn read_u16_le(b: &[u8], at: usize) -> (x: u16)
    requires
        at + 2 <= b@.len(),
    ensures
        x == u16_from_le(b@.subrange(at as int, at + 2)),
{
    (b[at] as u16) | ((b[at + 1] as u16) << 8)
}

pub fn read_u32_le(b: &[u8], at: usize) -> (x: u32)
    requires
        at + 4 <= b@.len(),
    ensures
        x == u32_from_le(b@.subrange(at as int, at + 4)),
{
    (b[at] as u32) | ((b[at + 1] as u32) << 8) | ((b[at + 2] as u32) << 16) | ((b[at + 3] as u32)
        << 24)
}

pub fn read_u64_le(b: &[u8], at: usize) -> (x: u64)
    requires
        at + 8 <= b@.len(),
    ensures
        x == u64_from_le(b@.subrange(at as int, at + 8)),
{
    (b[at] as u64) | ((b[at + 1] as u64) << 8) | ((b[at + 2] as u64) << 16) | ((b[at + 3] as u64)
        << 24) | ((b[at + 4] as u64) << 32) | ((b[at + 5] as u64) << 40) | ((b[at + 6] as u64)
        << 48) | ((b[at + 7] as u64) << 56)
}

/// Big-endian encoding of a `u64`.
pub open spec fn u64_be(x: u64) -> Seq<u8> {
    seq![
        ((x >> 56) & 0xff) as u8,
        ((x >> 48) & 0xff) as u8,
        ((x >> 40) & 0xff) as u8,
        ((x >> 32) & 0xff) as u8,
        ((x >> 24) & 0xff) as u8,
        ((x >> 16) & 0xff) as u8,
        ((x >> 8) & 0xff) as u8,
        (x & 0xff) as u8,
    ]
}

/// The `u64` whose big-endian encoding is the first eight bytes of `s`.
pub open spec fn u64_from_be(s: Seq<u8>) -> u64 {
    ((s[0] as u64) << 56) | ((s[1] as u64) << 48) | ((s[2] as u64) << 40) | ((s[3] as u64) << 32)
        | ((s[4] as u64) << 24) | ((s[5] as u64) << 16) | ((s[6] as u64) << 8) | (s[7] as u64)
}

pub proof fn lemma_u64_be_round_trip(x: u64)
    ensures
        u64_be(x).len() == 8,
        u64_from_be(u64_be(x)) == x,
{
    assert(x == (((((x >> 56) & 0xff) as u8) as u64) << 56 | ((((x >> 48) & 0xff) as u8) as u64)
        << 48 | ((((x >> 40) & 0xff) as u8) as u64) << 40 | ((((x >> 32) & 0xff) as u8) as u64)
        << 32 | ((((x >> 24) & 0xff) as u8) as u64) << 24 | ((((x >> 16) & 0xff) as u8) as u64)
        << 16 | ((((x >> 8) & 0xff) as u8) as u64) << 8 | ((x & 0xff) as u8) as u64))
        by (bit_vector);
}

pub fn push_u64_be(out: &mut Vec<u8>, x: u64)
    ensures
        final(out)@ == old(out)@ + u64_be(x),
{
    out.push(((x >> 56) & 0xff) as u8);
    out.push(((x >> 48) & 0xff) as u8);
    out.push(((x >> 40) & 0xff) as u8);
    out.push(((x >> 32) & 0xff) as u8);
    out.push(((x >> 24) & 0xff) as u8);
    out.push(((x >> 16) & 0xff) as u8);
    out.push(((x >> 8) & 0xff) as u8);
    out.push((x & 0xff) as u8);
    assert(out@ =~= old(out)@ + u64_be(x));
}

pub fn read_u64_be(b: &[u8], at: usize) -> (x: u64)
    requires
        at + 8 <= b@.len(),
    ensures
        x == u64_from_be(b@.subrange(at as int, at + 8)),
{
    ((b[at] as u64) << 56) | ((b[at + 1] as u64) << 48) | ((b[at + 2] as u64) << 40) | ((b[at
        + 3] as u64) << 32) | ((b[at + 4] as u64) << 24) | ((b[at + 5] as u64) << 16) | ((b[at
        + 6] as u64) << 8) | (b[at + 7] as u64)
}

} // verus!
