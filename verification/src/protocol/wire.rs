//! Big-endian integer encodings used by every wire format of the relay.
use vstd::prelude::*;

verus! {

/// The two big-endian bytes of `v`.
pub open spec fn be16_bytes(v: u16) -> Seq<u8> {
    seq![(v >> 8u16) as u8, (v & 0xffu16) as u8]
}

/// The four big-endian bytes of `v`.
pub open spec fn be32_bytes(v: u32) -> Seq<u8> {
    seq![(v >> 24u32) as u8, ((v >> 16u32) & 0xffu32) as u8, ((v >> 8u32) & 0xffu32) as u8, (v & 0xffu32) as u8]
}

/// The eight big-endian bytes of `v`.
pub open spec fn be64_bytes(v: u64) -> Seq<u8> {
    seq![
        (v >> 56u64) as u8, ((v >> 48u64) & 0xffu64) as u8, ((v >> 40u64) & 0xffu64) as u8,
        ((v >> 32u64) & 0xffu64) as u8, ((v >> 24u64) & 0xffu64) as u8, ((v >> 16u64) & 0xffu64) as u8,
        ((v >> 8u64) & 0xffu64) as u8, (v & 0xffu64) as u8,
    ]
}

/// The unsigned 16-bit integer whose big-endian bytes start at `i` in `s`.
pub open spec fn be16_at(s: Seq<u8>, i: int) -> u16 {
    ((s[i] as u16) << 8u16) | (s[i + 1] as u16)
}

/// The unsigned 32-bit integer whose big-endian bytes start at `i` in `s`.
pub open spec fn be32_at(s: Seq<u8>, i: int) -> u32 {
    ((s[i] as u32) << 24u32) | ((s[i + 1] as u32) << 16u32) | ((s[i + 2] as u32) << 8u32) | (s[i + 3] as u32)
}

/// The unsigned 64-bit integer whose big-endian bytes start at `i` in `s`.
pub open spec fn be64_at(s: Seq<u8>, i: int) -> u64 {
    ((s[i] as u64) << 56u64) | ((s[i + 1] as u64) << 48u64) | ((s[i + 2] as u64) << 40u64)
        | ((s[i + 3] as u64) << 32u64) | ((s[i + 4] as u64) << 24u64) | ((s[i + 5] as u64) << 16u64)
        | ((s[i + 6] as u64) << 8u64) | (s[i + 7] as u64)
}

/// A 16-bit value read back from its big-endian bytes is the value itself.
pub proof fn lemma_be16_roundtrip(v: u16, s: Seq<u8>, i: int)
    requires
        0 <= i,
        i + 2 <= s.len(),
        s.subrange(i, i + 2) == be16_bytes(v),
    ensures
        be16_at(s, i) == v,
{
    assert(s[i] == s.subrange(i, i + 2)[0]);
    assert(s[i + 1] == s.subrange(i, i + 2)[1]);
    let a = s[i];
    let b = s[i + 1];
    assert(a == (v >> 8u16) as u8 && b == (v & 0xffu16) as u8 ==> ((a as u16) << 8u16) | (b as u16) == v)
        by (bit_vector);
}

/// A 32-bit value read back from its big-endian bytes is the value itself.
pub proof fn lemma_be32_roundtrip(v: u32, s: Seq<u8>, i: int)
    requires
        0 <= i,
        i + 4 <= s.len(),
        s.subrange(i, i + 4) == be32_bytes(v),
    ensures
        be32_at(s, i) == v,
{
    let t = s.subrange(i, i + 4);
    assert(s[i] == t[0] && s[i + 1] == t[1] && s[i + 2] == t[2] && s[i + 3] == t[3]);
    let (a, b, c, d) = (s[i], s[i + 1], s[i + 2], s[i + 3]);
    assert(a == (v >> 24u32) as u8 && b == ((v >> 16u32) & 0xffu32) as u8 && c == ((v >> 8u32)
        & 0xffu32) as u8 && d == (v & 0xffu32) as u8 ==> ((a as u32) << 24u32) | ((b as u32)
        << 16u32) | ((c as u32) << 8u32) | (d as u32) == v) by (bit_vector);
}

/// A 64-bit value read back from its big-endian bytes is the value itself.
pub proof fn lemma_be64_roundtrip(v: u64, s: Seq<u8>, i: int)
    requires
        0 <= i,
        i + 8 <= s.len(),
        s.subrange(i, i + 8) == be64_bytes(v),
    ensures
        be64_at(s, i) == v,
{
    let t = s.subrange(i, i + 8);
    assert(s[i] == t[0] && s[i + 1] == t[1] && s[i + 2] == t[2] && s[i + 3] == t[3]);
    assert(s[i + 4] == t[4] && s[i + 5] == t[5] && s[i + 6] == t[6] && s[i + 7] == t[7]);
    let (a, b, c, d) = (s[i], s[i + 1], s[i + 2], s[i + 3]);
    let (e, f, g, h) = (s[i + 4], s[i + 5], s[i + 6], s[i + 7]);
    assert(a == (v >> 56u64) as u8 && b == ((v >> 48u64) & 0xffu64) as u8 && c == ((v >> 40u64)
        & 0xffu64) as u8 && d == ((v >> 32u64) & 0xffu64) as u8 && e == ((v >> 24u64) & 0xffu64) as u8
        && f == ((v >> 16u64) & 0xffu64) as u8 && g == ((v >> 8u64) & 0xffu64) as u8 && h == (v
        & 0xffu64) as u8 ==> ((a as u64) << 56u64) | ((b as u64) << 48u64) | ((c as u64) << 40u64)
        | ((d as u64) << 32u64) | ((e as u64) << 24u64) | ((f as u64) << 16u64) | ((g as u64)
        << 8u64) | (h as u64) == v) by (bit_vector);
}

/// Appends the big-endian bytes of `v`.
pub fn put_u16(dst: &mut Vec<u8>, v: u16)
    ensures
        final(dst)@ == old(dst)@ + be16_bytes(v),
{
    dst.push((v >> 8u16) as u8);
    dst.push((v & 0xffu16) as u8);
}

/// Appends the big-endian bytes of `v`.
pub fn put_u32(dst: &mut Vec<u8>, v: u32)
    ensures
        final(dst)@ == old(dst)@ + be32_bytes(v),
{
    dst.push((v >> 24u32) as u8);
    dst.push(((v >> 16u32) & 0xffu32) as u8);
    dst.push(((v >> 8u32) & 0xffu32) as u8);
    dst.push((v & 0xffu32) as u8);
}

/// Appends the big-endian bytes of `v`.
pub fn put_u64(dst: &mut Vec<u8>, v: u64)
    ensures
        final(dst)@ == old(dst)@ + be64_bytes(v),
{
    dst.push((v >> 56u64) as u8);
    dst.push(((v >> 48u64) & 0xffu64) as u8);
    dst.push(((v >> 40u64) & 0xffu64) as u8);
    dst.push(((v >> 32u64) & 0xffu64) as u8);
    dst.push(((v >> 24u64) & 0xffu64) as u8);
    dst.push(((v >> 16u64) & 0xffu64) as u8);
    dst.push(((v >> 8u64) & 0xffu64) as u8);
    dst.push((v & 0xffu64) as u8);
}

/// Appends all of `src`.
pub fn put_slice(dst: &mut Vec<u8>, src: &[u8])
    ensures
        final(dst)@ == old(dst)@ + src@,
{
    let mut i: usize = 0;
    while i < src.len()
        invariant
            0 <= i <= src@.len(),
            dst@ == old(dst)@ + src@.subrange(0, i as int),
        decreases src@.len() - i,
    {
        dst.push(src[i]);
        i = i + 1;
        assert(src@.subrange(0, i as int) == src@.subrange(0, i - 1) + seq![src@[i - 1]]);
    }
    assert(src@.subrange(0, src@.len() as int) == src@);
}

/// Appends `n` zero bytes.
pub fn put_zeros(dst: &mut Vec<u8>, n: usize)
    ensures
        final(dst)@ == old(dst)@ + Seq::new(n as nat, |k: int| 0u8),
{
    let mut i: usize = 0;
    while i < n
        invariant
            0 <= i <= n,
            dst@ == old(dst)@ + Seq::new(i as nat, |k: int| 0u8),
        decreases n - i,
    {
        dst.push(0u8);
        i = i + 1;
        assert(Seq::new(i as nat, |k: int| 0u8) == Seq::new((i - 1) as nat, |k: int| 0u8) + seq![0u8]);
    }
}

/// The 16-bit big-endian value at `i`.
pub fn get_u16(s: &[u8], i: usize) -> (r: u16)
    requires
        i + 2 <= s@.len(),
    ensures
        r == be16_at(s@, i as int),
{
    ((s[i] as u16) << 8u16) | (s[i + 1] as u16)
}

/// The 32-bit big-endian value at `i`.
pub fn get_u32(s: &[u8], i: usize) -> (r: u32)
    requires
        i + 4 <= s@.len(),
    ensures
        r == be32_at(s@, i as int),
{
    ((s[i] as u32) << 24u32) | ((s[i + 1] as u32) << 16u32) | ((s[i + 2] as u32) << 8u32) | (s[i + 3] as u32)
}

/// The 64-bit big-endian value at `i`.
pub fn get_u64(s: &[u8], i: usize) -> (r: u64)
    requires
        i + 8 <= s@.len(),
    ensures
        r == be64_at(s@, i as int),
{
    ((s[i] as u64) << 56u64) | ((s[i + 1] as u64) << 48u64) | ((s[i + 2] as u64) << 40u64)
        | ((s[i + 3] as u64) << 32u64) | ((s[i + 4] as u64) << 24u64) | ((s[i + 5] as u64) << 16u64)
        | ((s[i + 6] as u64) << 8u64) | (s[i + 7] as u64)
}

/// A fresh vector holding `s[start..end]`.
pub fn copy_range(s: &[u8], start: usize, end: usize) -> (r: Vec<u8>)
    requires
        start <= end <= s@.len(),
    ensures
        r@ == s@.subrange(start as int, end as int),
{
    let mut out: Vec<u8> = Vec::new();
    let mut i: usize = start;
    while i < end
        invariant
            start <= i <= end <= s@.len(),
            out@ == s@.subrange(start as int, i as int),
        decreases end - i,
    {
        out.push(s[i]);
        i = i + 1;
        assert(s@.subrange(start as int, i as int) == s@.subrange(start as int, i - 1) + seq![s@[i - 1]]);
    }
    out
}

/// A 32-byte array holding `s[start..start + 32]`.
pub fn copy_array32(s: &[u8], start: usize) -> (r: [u8; 32])
    requires
        start + 32 <= s@.len(),
    ensures
        r@ == s@.subrange(start as int, start + 32),
{
    let n = s.len();
    let mut out = [0u8; 32];
    let mut i: usize = 0;
    while i < 32
        invariant
            0 <= i <= 32,
            n == s@.len(),
            start + 32 <= s@.len(),
            forall|j: int| 0 <= j < i ==> out@[j] == s@[start + j],
        decreases 32 - i,
    {
        out[i] = s[start + i];
        i = i + 1;
    }
    assert(out@ =~= s@.subrange(start as int, start + 32));
    out
}

/// A 16-byte array holding `s[start..start + 16]`.
pub fn copy_array16(s: &[u8], start: usize) -> (r: [u8; 16])
    requires
        start + 16 <= s@.len(),
    ensures
        r@ == s@.subrange(start as int, start + 16),
{
    let n = s.len();
    let mut out = [0u8; 16];
    let mut i: usize = 0;
    while i < 16
        invariant
            0 <= i <= 16,
            n == s@.len(),
            start + 16 <= s@.len(),
            forall|j: int| 0 <= j < i ==> out@[j] == s@[start + j],
        decreases 16 - i,
    {
        out[i] = s[start + i];
        i = i + 1;
    }
    assert(out@ =~= s@.subrange(start as int, start + 16));
    out
}

} // verus!
