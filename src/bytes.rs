//! Fixed-width integers in the byte orders the wire uses: the host's order
//! (little-endian on the targets this codec runs on) for attribute values and
//! most header fields, network order for ports.
use vstd::prelude::*;

verus! {

pub open spec fn le16_of(b0: u8, b1: u8) -> u16 {
    (b0 as u16) | ((b1 as u16) << 8u16)
}

pub open spec fn le32_of(b0: u8, b1: u8, b2: u8, b3: u8) -> u32 {
    (b0 as u32) | ((b1 as u32) << 8u32) | ((b2 as u32) << 16u32) | ((b3 as u32) << 24u32)
}

/// The little-endian `u16` at offset `i` of `b`.
pub open spec fn le16(b: Seq<u8>, i: int) -> u16 {
    le16_of(b[i], b[i + 1])
}

/// The little-endian `u32` at offset `i` of `b`.
pub open spec fn le32(b: Seq<u8>, i: int) -> u32 {
    le32_of(b[i], b[i + 1], b[i + 2], b[i + 3])
}

/// The little-endian `u64` at offset `i` of `b`.
pub open spec fn le64(b: Seq<u8>, i: int) -> u64 {
    (le32(b, i) as u64) | ((le32(b, i + 4) as u64) << 32u64)
}

/// The big-endian (network order) `u16` at offset `i` of `b`.
pub open spec fn be16(b: Seq<u8>, i: int) -> u16 {
    le16_of(b[i + 1], b[i])
}

pub open spec fn le16_bytes(x: u16) -> Seq<u8> {
    seq![x as u8, (x >> 8u16) as u8]
}

pub open spec fn le32_bytes(x: u32) -> Seq<u8> {
    seq![x as u8, (x >> 8u32) as u8, (x >> 16u32) as u8, (x >> 24u32) as u8]
}

pub open spec fn le64_bytes(x: u64) -> Seq<u8> {
    le32_bytes(x as u32) + le32_bytes((x >> 32u64) as u32)
}

pub open spec fn be16_bytes(x: u16) -> Seq<u8> {
    seq![(x >> 8u16) as u8, x as u8]
}

/// A sequence of `n` zero bytes.
pub open spec fn zeros(n: nat) -> Seq<u8> {
    Seq::new(n, |i: int| 0u8)
}

proof fn lemma_le16_of_bytes(x: u16)
    ensures
        le16_of(x as u8, (x >> 8u16) as u8) == x,
{
    assert((x as u8) as u16 | (((x >> 8u16) as u8) as u16) << 8u16 == x) by (bit_vector);
}

proof fn lemma_le32_of_bytes(x: u32)
    ensures
        le32_of(x as u8, (x >> 8u32) as u8, (x >> 16u32) as u8, (x >> 24u32) as u8) == x,
{
    assert((x as u8) as u32 | (((x >> 8u32) as u8) as u32) << 8u32 | (((x >> 16u32) as u8) as u32)
        << 16u32 | (((x >> 24u32) as u8) as u32) << 24u32 == x) by (bit_vector);
}

/// Encoding a `u16` read from two bytes gives those bytes back.
pub proof fn lemma_le16_bytes_of(b0: u8, b1: u8)
    ensures
        le16_bytes(le16_of(b0, b1)) == seq![b0, b1],
{
    let x = le16_of(b0, b1);
    assert(((b0 as u16) | ((b1 as u16) << 8u16)) as u8 == b0) by (bit_vector);
    assert((((b0 as u16) | ((b1 as u16) << 8u16)) >> 8u16) as u8 == b1) by (bit_vector);
    assert(le16_bytes(x) =~= seq![b0, b1]);
}

/// Encoding a `u32` read from four bytes gives those bytes back.
pub proof fn lemma_le32_bytes_of(b0: u8, b1: u8, b2: u8, b3: u8)
    ensures
        le32_bytes(le32_of(b0, b1, b2, b3)) == seq![b0, b1, b2, b3],
{
    let x = le32_of(b0, b1, b2, b3);
    assert(((b0 as u32) | ((b1 as u32) << 8u32) | ((b2 as u32) << 16u32) | ((b3 as u32) << 24u32))
        as u8 == b0) by (bit_vector);
    assert((((b0 as u32) | ((b1 as u32) << 8u32) | ((b2 as u32) << 16u32) | ((b3 as u32) << 24u32))
        >> 8u32) as u8 == b1) by (bit_vector);
    assert((((b0 as u32) | ((b1 as u32) << 8u32) | ((b2 as u32) << 16u32) | ((b3 as u32) << 24u32))
        >> 16u32) as u8 == b2) by (bit_vector);
    assert((((b0 as u32) | ((b1 as u32) << 8u32) | ((b2 as u32) << 16u32) | ((b3 as u32) << 24u32))
        >> 24u32) as u8 == b3) by (bit_vector);
    assert(le32_bytes(x) =~= seq![b0, b1, b2, b3]);
}

/// Reading a `u16` back from its encoding, wherever it stands, gives the value.
pub proof fn lemma_le16_round_trip(p: Seq<u8>, x: u16, q: Seq<u8>)
    ensures
        le16(p + le16_bytes(x) + q, p.len() as int) == x,
{
    lemma_le16_of_bytes(x);
    let b = p + le16_bytes(x) + q;
    assert(b[p.len() as int] == x as u8);
    assert(b[p.len() as int + 1] == (x >> 8u16) as u8);
}

/// Reading a `u32` back from its encoding, wherever it stands, gives the value.
pub proof fn lemma_le32_round_trip(p: Seq<u8>, x: u32, q: Seq<u8>)
    ensures
        le32(p + le32_bytes(x) + q, p.len() as int) == x,
{
    lemma_le32_of_bytes(x);
    let b = p + le32_bytes(x) + q;
    let n = p.len() as int;
    assert(b[n] == x as u8);
    assert(b[n + 1] == (x >> 8u32) as u8);
    assert(b[n + 2] == (x >> 16u32) as u8);
    assert(b[n + 3] == (x >> 24u32) as u8);
}

pub fn read_le16(buf: &[u8], i: usize) -> (r: u16)
    requires
        i + 2 <= buf@.len(),
    ensures
        r == le16(buf@, i as int),
{
    (buf[i] as u16) | ((buf[i + 1] as u16) << 8u16)
}

pub fn read_be16(buf: &[u8], i: usize) -> (r: u16)
    requires
        i + 2 <= buf@.len(),
    ensures
        r == be16(buf@, i as int),
{
    let _n = buf.len();
    (buf[i + 1] as u16) | ((buf[i] as u16) << 8u16)
}

pub fn read_le32(buf: &[u8], i: usize) -> (r: u32)
    requires
        i + 4 <= buf@.len(),
    ensures
        r == le32(buf@, i as int),
{
    (buf[i] as u32) | ((buf[i + 1] as u32) << 8u32) | ((buf[i + 2] as u32) << 16u32) | ((buf[i
        + 3] as u32) << 24u32)
}

pub fn read_le64(buf: &[u8], i: usize) -> (r: u64)
    requires
        i + 8 <= buf@.len(),
    ensures
        r == le64(buf@, i as int),
{
    let _n = buf.len();
    let lo = read_le32(buf, i);
    let hi = read_le32(buf, i + 4);
    (lo as u64) | ((hi as u64) << 32u64)
}

pub fn push_le16(out: &mut Vec<u8>, x: u16)
    ensures
        final(out)@ == old(out)@ + le16_bytes(x),
{
    out.push(x as u8);
    out.push((x >> 8u16) as u8);
    assert(final(out)@ =~= old(out)@ + le16_bytes(x));
}

pub fn push_be16(out: &mut Vec<u8>, x: u16)
    ensures
        final(out)@ == old(out)@ + be16_bytes(x),
{
    out.push((x >> 8u16) as u8);
    out.push(x as u8);
    assert(final(out)@ =~= old(out)@ + be16_bytes(x));
}

pub fn push_le32(out: &mut Vec<u8>, x: u32)
    ensures
        final(out)@ == old(out)@ + le32_bytes(x),
{
    out.push(x as u8);
    out.push((x >> 8u32) as u8);
    out.push((x >> 16u32) as u8);
    out.push((x >> 24u32) as u8);
    assert(final(out)@ =~= old(out)@ + le32_bytes(x));
}

pub fn push_le64(out: &mut Vec<u8>, x: u64)
    ensures
        final(out)@ == old(out)@ + le64_bytes(x),
{
    push_le32(out, x as u32);
    push_le32(out, (x >> 32u64) as u32);
    assert(final(out)@ =~= old(out)@ + le64_bytes(x));
}

/// Appends `n` zero bytes.
pub fn push_zeros(out: &mut Vec<u8>, n: usize)
    ensures
        final(out)@ == old(out)@ + zeros(n as nat),
{
    let mut k: usize = 0;
    while k < n
        invariant
            k <= n,
            out@ == old(out)@ + zeros(k as nat),
        decreases n - k,
    {
        out.push(0u8);
        k = k + 1;
        assert(out@ =~= old(out)@ + zeros(k as nat));
    }
}

/// Appends the bytes of `src`.
pub fn push_slice(out: &mut Vec<u8>, src: &[u8])
    ensures
        final(out)@ == old(out)@ + src@,
{
    let mut k: usize = 0;
    while k < src.len()
        invariant
            k <= src@.len(),
            out@ == old(out)@ + src@.subrange(0, k as int),
        decreases src@.len() - k,
    {
        out.push(src[k]);
        k = k + 1;
        assert(out@ =~= old(out)@ + src@.subrange(0, k as int));
    }
    assert(src@.subrange(0, src@.len() as int) =~= src@);
}

/// A copy of `buf[start..end]`.
pub fn copy_range(buf: &[u8], start: usize, end: usize) -> (r: Vec<u8>)
    requires
        start <= end <= buf@.len(),
    ensures
        r@ == buf@.subrange(start as int, end as int),
{
    let mut r: Vec<u8> = Vec::new();
    let mut k: usize = start;
    while k < end
        invariant
            start <= k <= end,
            end <= buf@.len(),
            r@ == buf@.subrange(start as int, k as int),
        decreases end - k,
    {
        r.push(buf[k]);
        k = k + 1;
        assert(r@ =~= buf@.subrange(start as int, k as int));
    }
    r
}

} // verus!
