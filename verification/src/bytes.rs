//! Little-endian encoding helpers on byte slices.

use vstd::prelude::*;

verus! {

/// The `u16` stored little-endian at `s[i..i+2]`.
pub open spec fn spec_u16_le(s: Seq<u8>, i: int) -> u16 {
    (s[i] + 256 * s[i + 1]) as u16
}

/// The `u32` stored little-endian at `s[i..i+4]`.
pub open spec fn spec_u32_le(s: Seq<u8>, i: int) -> u32 {
    (s[i] + 256 * s[i + 1] + 65536 * s[i + 2] + 16777216 * s[i + 3]) as u32
}

/// The two little-endian bytes of `v`.
pub open spec fn spec_u16_bytes(v: u16) -> Seq<u8> {
    seq![(v % 256) as u8, (v / 256) as u8]
}

/// The four little-endian bytes of `v`.
pub open spec fn spec_u32_bytes(v: u32) -> Seq<u8> {
    seq![(v % 256) as u8, ((v / 256) % 256) as u8, ((v / 65536) % 256) as u8, (v / 16777216) as u8]
}

/// `s` with `w` written over it starting at index `i`.
pub open spec fn spec_splice(s: Seq<u8>, i: int, w: Seq<u8>) -> Seq<u8> {
    s.take(i) + w + s.skip(i + w.len())
}

pub fn read_u16_le(s: &[u8], i: usize) -> (r: u16)
    requires
        i + 2 <= s@.len(),
    ensures
        r == spec_u16_le(s@, i as int),
{
    s[i] as u16 + (s[i + 1] as u16) * 256
}

pub fn read_u32_le(s: &[u8], i: usize) -> (r: u32)
    requires
        i + 4 <= s@.len(),
    ensures
        r == spec_u32_le(s@, i as int),
{
    s[i] as u32 + (s[i + 1] as u32) * 256 + (s[i + 2] as u32) * 65536 + (s[i + 3] as u32) * 16777216
}

pub fn u16_to_le_bytes(v: u16) -> (r: [u8; 2])
    ensures
        r@ == spec_u16_bytes(v),
{
    let r = [(v % 256) as u8, (v / 256) as u8];
    assert(r@ =~= spec_u16_bytes(v));
    r
}

pub fn u32_to_le_bytes(v: u32) -> (r: [u8; 4])
    ensures
        r@ == spec_u32_bytes(v),
{
    let r = [(v % 256) as u8, ((v / 256) % 256) as u8, ((v / 65536) % 256) as u8, (v / 16777216) as u8];
    assert(r@ =~= spec_u32_bytes(v));
    r
}

/// Copies `src` into `dst` starting at index `at`.
pub fn copy_into(dst: &mut [u8], at: usize, src: &[u8])
    requires
        at + src@.len() <= old(dst)@.len(),
    ensures
        final(dst)@ == spec_splice(old(dst)@, at as int, src@),
{
    let dlen: usize = dst.len();
    let mut k: usize = 0;
    while k < src.len()
        invariant
            k <= src@.len(),
            dst@.len() == dlen,
            at + src@.len() <= dst@.len(),
            dst@.len() == old(dst)@.len(),
            dst@ =~= old(dst)@.take(at as int) + src@.take(k as int) + old(dst)@.skip(at + k),
        decreases src@.len() - k,
    {
        dst[at + k] = src[k];
        k = k + 1;
        assert(dst@ =~= old(dst)@.take(at as int) + src@.take(k as int) + old(dst)@.skip(at + k));
    }
    assert(src@.take(k as int) =~= src@);
}

/// Writes `v` little-endian at `dst[at..at+2]`.
pub fn write_u16_le(dst: &mut [u8], at: usize, v: u16)
    requires
        at + 2 <= old(dst)@.len(),
    ensures
        final(dst)@ == spec_splice(old(dst)@, at as int, spec_u16_bytes(v)),
{
    let b = u16_to_le_bytes(v);
    copy_into(dst, at, b.as_slice());
}

/// Writes `v` little-endian at `dst[at..at+4]`.
pub fn write_u32_le(dst: &mut [u8], at: usize, v: u32)
    requires
        at + 4 <= old(dst)@.len(),
    ensures
        final(dst)@ == spec_splice(old(dst)@, at as int, spec_u32_bytes(v)),
{
    let b = u32_to_le_bytes(v);
    copy_into(dst, at, b.as_slice());
}

/// Reading back a little-endian `u16` gives the value that was written.
pub proof fn lemma_u16_roundtrip(s: Seq<u8>, i: int, v: u16)
    requires
        0 <= i,
        i + 2 <= s.len(),
    ensures
        spec_u16_le(spec_splice(s, i, spec_u16_bytes(v)), i) == v,
        spec_splice(s, i, spec_u16_bytes(v)).len() == s.len(),
{
    let t = spec_splice(s, i, spec_u16_bytes(v));
    assert(t[i] == (v % 256) as u8);
    assert(t[i + 1] == (v / 256) as u8);
}

/// Reading back a little-endian `u32` gives the value that was written.
pub proof fn lemma_u32_roundtrip(s: Seq<u8>, i: int, v: u32)
    requires
        0 <= i,
        i + 4 <= s.len(),
    ensures
        spec_u32_le(spec_splice(s, i, spec_u32_bytes(v)), i) == v,
        spec_splice(s, i, spec_u32_bytes(v)).len() == s.len(),
{
    let t = spec_splice(s, i, spec_u32_bytes(v));
    assert(t[i] == (v % 256) as u8);
    assert(t[i + 1] == ((v / 256) % 256) as u8);
    assert(t[i + 2] == ((v / 65536) % 256) as u8);
    assert(t[i + 3] == (v / 16777216) as u8);
}

} // verus!
