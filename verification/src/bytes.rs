//! Little-endian integer encodings and byte-buffer appends.

use vstd::prelude::*;

verus! {

/// The two bytes of `x`, least significant first.
pub open spec fn le16(x: u16) -> Seq<u8> {
    seq![(x % 256) as u8, (x / 256) as u8]
}

/// The four bytes of `x`, least significant first.
pub open spec fn le32(x: u32) -> Seq<u8> {
    seq![
        (x % 256) as u8,
        ((x / 256) % 256) as u8,
        ((x / 65536) % 256) as u8,
        (x / 16777216) as u8,
    ]
}

/// The number stored little-endian in the two bytes of `s` at `at`.
pub open spec fn read_u16_le(s: Seq<u8>, at: int) -> nat {
    s[at] as nat + 256 * (s[at + 1] as nat)
}

/// The number stored little-endian in the four bytes of `s` at `at`.
pub open spec fn read_u32_le(s: Seq<u8>, at: int) -> nat {
    s[at] as nat + 256 * (s[at + 1] as nat) + 65536 * (s[at + 2] as nat) + 16777216 * (
    s[at + 3] as nat)
}

/// Reading the two bytes of `le16(x)` gives back `x`.
pub proof fn law_le16_reads_back(x: u16)
    ensures
        le16(x).len() == 2,
        read_u16_le(le16(x), 0) == x,
{
    assert((x % 256) + 256 * (x / 256) == x) by (bit_vector);
}

/// Reading the four bytes of `le32(x)` gives back `x`.
pub proof fn law_le32_reads_back(x: u32)
    ensures
        le32(x).len() == 4,
        read_u32_le(le32(x), 0) == x,
{
    assert((x % 256) + 256 * ((x / 256) % 256) + 65536 * ((x / 65536) % 256) + 16777216 * (x
        / 16777216) == x) by (bit_vector);
}

/// A two-byte number read inside `s` is the number read from those two bytes.
pub proof fn lemma_read_u16_within(s: Seq<u8>, at: int)
    requires
        0 <= at,
        at + 2 <= s.len(),
    ensures
        read_u16_le(s, at) == read_u16_le(s.subrange(at, at + 2), 0),
{
}

/// A four-byte number read inside `s` is the number read from those four bytes.
pub proof fn lemma_read_u32_within(s: Seq<u8>, at: int)
    requires
        0 <= at,
        at + 4 <= s.len(),
    ensures
        read_u32_le(s, at) == read_u32_le(s.subrange(at, at + 4), 0),
{
}

/// Appends the little-endian bytes of `x` to `out`.
pub fn push_le16(out: &mut Vec<u8>, x: u16)
    ensures
        final(out)@ == old(out)@ + le16(x),
{
    out.push((x % 256) as u8);
    out.push((x / 256) as u8);
    assert(out@ =~= old(out)@ + le16(x));
}

/// Appends the little-endian bytes of `x` to `out`.
pub fn push_le32(out: &mut Vec<u8>, x: u32)
    ensures
        final(out)@ == old(out)@ + le32(x),
{
    out.push((x % 256) as u8);
    out.push(((x / 256) % 256) as u8);
    out.push(((x / 65536) % 256) as u8);
    out.push((x / 16777216) as u8);
    assert(out@ =~= old(out)@ + le32(x));
}

/// Appends `bytes` to `out`.
pub fn push_bytes(out: &mut Vec<u8>, bytes: &[u8])
    ensures
        final(out)@ == old(out)@ + bytes@,
{
    let n = bytes.len();
    let mut i: usize = 0;
    while i < n
        invariant
            n == bytes@.len(),
            0 <= i <= n,
            out@ == old(out)@ + bytes@.subrange(0, i as int),
        decreases n - i,
    {
        out.push(bytes[i]);
        i = i + 1;
        assert(out@ =~= old(out)@ + bytes@.subrange(0, i as int));
    }
    assert(bytes@.subrange(0, n as int) =~= bytes@);
}

} // verus!
