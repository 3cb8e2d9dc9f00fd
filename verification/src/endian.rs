//! Big-endian encoding of integers, as ISO-BMFF and H.26x length prefixes
//! use it.

use vstd::prelude::*;

verus! {

/// Two bytes, most significant first.
pub open spec fn be_u16(x: u16) -> Seq<u8> {
    seq![(x >> 8u16) as u8, x as u8]
}

/// The low three bytes, most significant first.
pub open spec fn be_u24(x: u32) -> Seq<u8> {
    seq![(x >> 16u32) as u8, (x >> 8u32) as u8, x as u8]
}

/// Four bytes, most significant first.
pub open spec fn be_u32(x: u32) -> Seq<u8> {
    seq![(x >> 24u32) as u8, (x >> 16u32) as u8, (x >> 8u32) as u8, x as u8]
}

/// Eight bytes, most significant first.
pub open spec fn be_u64(x: u64) -> Seq<u8> {
    be_u32((x >> 32u64) as u32) + be_u32(x as u32)
}

/// The value of the first two bytes of `s`, read most significant first.
pub open spec fn spec_from_be_u16(s: Seq<u8>) -> u16 {
    ((s[0] as u16) << 8u16) | (s[1] as u16)
}

/// The value of the first four bytes of `s`, read most significant first.
pub open spec fn spec_from_be_u32(s: Seq<u8>) -> u32 {
    ((s[0] as u32) << 24u32) | ((s[1] as u32) << 16u32) | ((s[2] as u32) << 8u32) | (s[3] as u32)
}

/// Big-endian: the encoded bytes are the base-256 digits of the value,
/// most significant first.
pub proof fn lemma_be_digits(a: u16, b: u32, c: u32, d: u64)
    ensures
        be_u16(a).len() == 2,
        be_u16(a)[0] == a / 0x100,
        be_u16(a)[1] == a % 0x100,
        be_u24(b).len() == 3,
        be_u24(b)[0] == (b / 0x1_0000) % 0x100,
        be_u24(b)[1] == (b / 0x100) % 0x100,
        be_u24(b)[2] == b % 0x100,
        be_u32(c).len() == 4,
        be_u32(c)[0] == c / 0x100_0000,
        be_u32(c)[1] == (c / 0x1_0000) % 0x100,
        be_u32(c)[2] == (c / 0x100) % 0x100,
        be_u32(c)[3] == c % 0x100,
        be_u64(d).len() == 8,
        be_u64(d)[0] == d / 0x100_0000_0000_0000,
        be_u64(d)[1] == (d / 0x1_0000_0000_0000) % 0x100,
        be_u64(d)[2] == (d / 0x100_0000_0000) % 0x100,
        be_u64(d)[3] == (d / 0x1_0000_0000) % 0x100,
        be_u64(d)[4] == (d / 0x100_0000) % 0x100,
        be_u64(d)[5] == (d / 0x1_0000) % 0x100,
        be_u64(d)[6] == (d / 0x100) % 0x100,
        be_u64(d)[7] == d % 0x100,
{
    assert(((a >> 8u16) as u8) as u16 == a / 0x100 && (a as u8) as u16 == a % 0x100) by (bit_vector);
    assert(((b >> 16u32) as u8) as u32 == (b / 0x1_0000) % 0x100 && ((b >> 8u32) as u8) as u32 == (b
        / 0x100) % 0x100 && (b as u8) as u32 == b % 0x100) by (bit_vector);
    assert(((c >> 24u32) as u8) as u32 == c / 0x100_0000 && ((c >> 16u32) as u8) as u32 == (c
        / 0x1_0000) % 0x100 && ((c >> 8u32) as u8) as u32 == (c / 0x100) % 0x100 && (c as u8) as u32
        == c % 0x100) by (bit_vector);
    let hi = (d >> 32u64) as u32;
    let lo = d as u32;
    assert(((hi >> 24u32) as u8) as u64 == d / 0x100_0000_0000_0000 && ((hi >> 16u32) as u8) as u64
        == (d / 0x1_0000_0000_0000) % 0x100 && ((hi >> 8u32) as u8) as u64 == (d / 0x100_0000_0000)
        % 0x100 && (hi as u8) as u64 == (d / 0x1_0000_0000) % 0x100) by (bit_vector)
        requires
            hi == (d >> 32u64) as u32,
    ;
    assert(((lo >> 24u32) as u8) as u64 == (d / 0x100_0000) % 0x100 && ((lo >> 16u32) as u8) as u64
        == (d / 0x1_0000) % 0x100 && ((lo >> 8u32) as u8) as u64 == (d / 0x100) % 0x100 && (lo
        as u8) as u64 == d % 0x100) by (bit_vector)
        requires
            lo == d as u32,
    ;
}

/// Reading back two encoded bytes gives the value that was encoded.
pub proof fn lemma_be_u16_roundtrip(x: u16)
    ensures
        spec_from_be_u16(be_u16(x)) == x,
{
    let s = be_u16(x);
    assert(s[0] == (x >> 8u16) as u8 && s[1] == x as u8);
    assert((((((x >> 8u16) as u8) as u16) << 8u16) | ((x as u8) as u16)) == x) by (bit_vector);
}

/// Reading back four encoded bytes gives the value that was encoded.
pub proof fn lemma_be_u32_roundtrip(x: u32)
    ensures
        spec_from_be_u32(be_u32(x)) == x,
{
    let s = be_u32(x);
    assert(s[0] == (x >> 24u32) as u8 && s[1] == (x >> 16u32) as u8 && s[2] == (x >> 8u32) as u8
        && s[3] == x as u8);
    assert((((((x >> 24u32) as u8) as u32) << 24u32) | ((((x >> 16u32) as u8) as u32) << 16u32)
        | ((((x >> 8u32) as u8) as u32) << 8u32) | ((x as u8) as u32)) == x) by (bit_vector);
}

/// Appends the big-endian bytes of `x`.
pub fn push_u16(v: &mut Vec<u8>, x: u16)
    ensures
        final(v)@ == old(v)@ + be_u16(x),
{
    v.push((x >> 8u16) as u8);
    v.push(x as u8);
    assert(v@ =~= old(v)@ + be_u16(x));
}

/// Appends the low three big-endian bytes of `x`.
pub fn push_u24(v: &mut Vec<u8>, x: u32)
    ensures
        final(v)@ == old(v)@ + be_u24(x),
{
    v.push((x >> 16u32) as u8);
    v.push((x >> 8u32) as u8);
    v.push(x as u8);
    assert(v@ =~= old(v)@ + be_u24(x));
}

/// Appends the big-endian bytes of `x`.
pub fn push_u32(v: &mut Vec<u8>, x: u32)
    ensures
        final(v)@ == old(v)@ + be_u32(x),
{
    v.push((x >> 24u32) as u8);
    v.push((x >> 16u32) as u8);
    v.push((x >> 8u32) as u8);
    v.push(x as u8);
    assert(v@ =~= old(v)@ + be_u32(x));
}

/// Appends the big-endian bytes of `x`.
pub fn push_u64(v: &mut Vec<u8>, x: u64)
    ensures
        final(v)@ == old(v)@ + be_u64(x),
{
    push_u32(v, (x >> 32u64) as u32);
    push_u32(v, x as u32);
    assert(v@ =~= old(v)@ + be_u64(x));
}

/// Appends `n` zero bytes.
pub fn push_zeros(v: &mut Vec<u8>, n: usize)
    ensures
        final(v)@ == old(v)@ + Seq::new(n as nat, |i: int| 0u8),
{
    let mut i: usize = 0;
    while i < n
        invariant
            i <= n,
            v@ == old(v)@ + Seq::new(i as nat, |j: int| 0u8),
        decreases n - i,
    {
        v.push(0u8);
        i = i + 1;
        assert(v@ =~= old(v)@ + Seq::new(i as nat, |j: int| 0u8));
    }
}

/// Appends the bytes of `s`.
pub fn push_slice(v: &mut Vec<u8>, s: &[u8])
    ensures
        final(v)@ == old(v)@ + s@,
{
    let mut i: usize = 0;
    while i < s.len()
        invariant
            i <= s@.len(),
            v@ == old(v)@ + s@.take(i as int),
        decreases s@.len() - i,
    {
        v.push(s[i]);
        i = i + 1;
        assert(v@ =~= old(v)@ + s@.take(i as int));
    }
    assert(s@.take(s@.len() as int) =~= s@);
}

} // verus!
