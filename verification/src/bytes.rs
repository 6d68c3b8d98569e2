//! Little- and big-endian encodings of fixed-width integers.

use vstd::prelude::*;

verus! {

/// The two bytes of `x`, least significant first.
pub open spec fn u16_le(x: u16) -> Seq<u8> {
    seq![(x % 256) as u8, (x / 256) as u8]
}

/// The four bytes of `x`, least significant first.
pub open spec fn u32_le(x: u32) -> Seq<u8> {
    seq![
        (x % 256) as u8,
        ((x / 256) % 256) as u8,
        ((x / 65536) % 256) as u8,
        (x / 16777216) as u8,
    ]
}

/// The four bytes of `x`, most significant first.
pub open spec fn u32_be(x: u32) -> Seq<u8> {
    seq![
        (x / 16777216) as u8,
        ((x / 65536) % 256) as u8,
        ((x / 256) % 256) as u8,
        (x % 256) as u8,
    ]
}

/// The `u32` whose big-endian bytes are `b0..b3`.
pub open spec fn be_u32(b0: u8, b1: u8, b2: u8, b3: u8) -> u32 {
    (b3 + 256 * b2 + 65536 * b1 + 16777216 * b0) as u32
}

/// The `u16` whose little-endian bytes are `b[0], b[1]`.
pub open spec fn le_u16(b0: u8, b1: u8) -> u16 {
    (b0 + 256 * b1) as u16
}

/// The `u32` whose little-endian bytes are `b0..b3`.
pub open spec fn le_u32(b0: u8, b1: u8, b2: u8, b3: u8) -> u32 {
    (b0 + 256 * b1 + 65536 * b2 + 16777216 * b3) as u32
}

pub proof fn lemma_le_u16_bytes(b0: u8, b1: u8)
    ensures
        u16_le(le_u16(b0, b1)) == seq![b0, b1],
{
    let x: int = b0 + 256 * b1;
    assert(x % 256 == b0 && x / 256 == b1) by (nonlinear_arith)
        requires
            x == b0 + 256 * b1,
            0 <= b0 < 256,
            0 <= b1 < 256,
    ;
    assert(u16_le(le_u16(b0, b1)) =~= seq![b0, b1]);
}

pub proof fn lemma_u16_le_roundtrip(x: u16)
    ensures
        le_u16(u16_le(x)[0], u16_le(x)[1]) == x,
{
}

pub proof fn lemma_u32_le_roundtrip(x: u32)
    ensures
        le_u32(u32_le(x)[0], u32_le(x)[1], u32_le(x)[2], u32_le(x)[3]) == x,
{
}

pub proof fn lemma_le_u32_bytes(b0: u8, b1: u8, b2: u8, b3: u8)
    ensures
        u32_le(le_u32(b0, b1, b2, b3)) == seq![b0, b1, b2, b3],
{
    let x: int = b0 + 256 * b1 + 65536 * b2 + 16777216 * b3;
    assert(0 <= x < 0x1_0000_0000);
    assert(le_u32(b0, b1, b2, b3) == x);
    assert(x % 256 == b0 && (x / 256) % 256 == b1 && (x / 65536) % 256 == b2 && x / 16777216
        == b3) by (nonlinear_arith)
        requires
            x == b0 + 256 * b1 + 65536 * b2 + 16777216 * b3,
            0 <= b0 < 256,
            0 <= b1 < 256,
            0 <= b2 < 256,
            0 <= b3 < 256,
    ;
    assert(u32_le(le_u32(b0, b1, b2, b3)) =~= seq![b0, b1, b2, b3]);
}

pub proof fn lemma_u32_be_roundtrip(x: u32)
    ensures
        be_u32(u32_be(x)[0], u32_be(x)[1], u32_be(x)[2], u32_be(x)[3]) == x,
{
}

pub proof fn lemma_be_u32_bytes(b0: u8, b1: u8, b2: u8, b3: u8)
    ensures
        u32_be(be_u32(b0, b1, b2, b3)) == seq![b0, b1, b2, b3],
{
    lemma_le_u32_bytes(b3, b2, b1, b0);
    assert(be_u32(b0, b1, b2, b3) == le_u32(b3, b2, b1, b0));
    assert(u32_be(be_u32(b0, b1, b2, b3)) =~= seq![b0, b1, b2, b3]);
}

/// Appends the little-endian bytes of `x`.
pub fn push_u16_le(out: &mut Vec<u8>, x: u16)
    ensures
        final(out)@ == old(out)@ + u16_le(x),
{
    out.push((x % 256) as u8);
    out.push((x / 256) as u8);
}

/// Appends the little-endian bytes of `x`.
pub fn push_u32_le(out: &mut Vec<u8>, x: u32)
    ensures
        final(out)@ == old(out)@ + u32_le(x),
{
    out.push((x % 256) as u8);
    out.push(((x / 256) % 256) as u8);
    out.push(((x / 65536) % 256) as u8);
    out.push((x / 16777216) as u8);
}

/// Appends the big-endian bytes of `x`.
pub fn push_u32_be(out: &mut Vec<u8>, x: u32)
    ensures
        final(out)@ == old(out)@ + u32_be(x),
{
    out.push((x / 16777216) as u8);
    out.push(((x / 65536) % 256) as u8);
    out.push(((x / 256) % 256) as u8);
    out.push((x % 256) as u8);
}

/// Reads a little-endian `u16` at `pos`.
pub fn read_u16_le(b: &[u8], pos: usize) -> (r: u16)
    requires
        pos + 2 <= b@.len(),
    ensures
        r == le_u16(b@[pos as int], b@[pos + 1]),
{
    b[pos] as u16 + 256 * (b[pos + 1] as u16)
}

/// Reads a big-endian `u32` at `pos`.
pub fn read_u32_be(b: &[u8], pos: usize) -> (r: u32)
    requires
        pos + 4 <= b@.len(),
    ensures
        r == be_u32(b@[pos as int], b@[pos + 1], b@[pos + 2], b@[pos + 3]),
{
    let b0 = b[pos] as u32;
    let b1 = b[pos + 1] as u32;
    let b2 = b[pos + 2] as u32;
    let b3 = b[pos + 3] as u32;
    b3 + 256 * b2 + 65536 * b1 + 16777216 * b0
}

/// Reads a little-endian `u32` at `pos`.
pub fn read_u32_le(b: &[u8], pos: usize) -> (r: u32)
    requires
        pos + 4 <= b@.len(),
    ensures
        r == le_u32(b@[pos as int], b@[pos + 1], b@[pos + 2], b@[pos + 3]),
{
    b[pos] as u32 + 256 * (b[pos + 1] as u32) + 65536 * (b[pos + 2] as u32) + 16777216 * (
    b[pos + 3] as u32)
}

/// Appends every byte of `src`.
pub fn push_bytes(out: &mut Vec<u8>, src: &[u8])
    ensures
        final(out)@ == old(out)@ + src@,
{
    let ghost start = out@;
    let mut i: usize = 0;
    while i < src.len()
        invariant
            i <= src@.len(),
            out@ == start + src@.take(i as int),
        decreases src@.len() - i,
    {
        out.push(src[i]);
        i = i + 1;
        assert(out@ =~= start + src@.take(i as int));
    }
    assert(src@.take(i as int) =~= src@);
}

/// The `N` bytes of `b` that start at `pos`, as an array.
pub fn read_array<const N: usize>(b: &[u8], pos: usize) -> (a: [u8; N])
    requires
        pos + N <= b@.len(),
    ensures
        a@ == b@.subrange(pos as int, pos + N),
{
    let mut a = [0u8; N];
    let len: usize = b.len();
    let mut i: usize = 0;
    while i < N
        invariant
            i <= N,
            pos + N <= b@.len(),
            len == b@.len(),
            a@.len() == N,
            forall|j: int| 0 <= j < i ==> a@[j] == b@[pos + j],
        decreases N - i,
    {
        a[i] = b[pos + i];
        i = i + 1;
    }
    assert(a@ =~= b@.subrange(pos as int, pos + N));
    a
}

} // verus!
