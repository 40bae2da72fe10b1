//! Little-endian integers and byte-sequence helpers.

use vstd::prelude::*;

verus! {

/// The four little-endian bytes of a `u32`.
pub open spec fn le_bytes(v: u32) -> Seq<u8> {
    seq![
        (v % 256) as u8,
        ((v / 256) % 256) as u8,
        ((v / 65536) % 256) as u8,
        ((v / 16777216) % 256) as u8,
    ]
}

/// The `u32` read little-endian from four bytes of `s` at `off`.
pub open spec fn le_u32_at(s: Seq<u8>, off: int) -> u32 {
    (s[off] as int + 256 * (s[off + 1] as int) + 65536 * (s[off + 2] as int) + 16777216 * (
    s[off + 3] as int)) as u32
}

/// Reading back the bytes of a `u32` gives the `u32`.
pub proof fn lemma_le_roundtrip(v: u32, s: Seq<u8>, off: int)
    requires
        0 <= off,
        off + 4 <= s.len(),
        s.subrange(off, off + 4) == le_bytes(v),
    ensures
        le_u32_at(s, off) == v,
{
    assert(s[off] == le_bytes(v)[0]);
    assert(s[off + 1] == le_bytes(v)[1]);
    assert(s[off + 2] == le_bytes(v)[2]);
    assert(s[off + 3] == le_bytes(v)[3]);
    let b0 = v % 256;
    let b1 = (v / 256) % 256;
    let b2 = (v / 65536) % 256;
    let b3 = (v / 16777216) % 256;
    assert(b0 + 256 * b1 + 65536 * b2 + 16777216 * b3 == v) by (nonlinear_arith)
        requires
            b0 == v % 256,
            b1 == (v / 256) % 256,
            b2 == (v / 65536) % 256,
            b3 == (v / 16777216) % 256,
            v <= 0xffff_ffff,
    ;
}

/// Reads a little-endian `u32` from four bytes of `s` at `off`.
pub fn read_le_u32(s: &[u8], off: usize) -> (r: u32)
    requires
        off + 4 <= s@.len(),
    ensures
        r == le_u32_at(s@, off as int),
{
    let b0 = s[off] as u32;
    let b1 = s[off + 1] as u32;
    let b2 = s[off + 2] as u32;
    let b3 = s[off + 3] as u32;
    b0 + 256 * b1 + 65536 * b2 + 16777216 * b3
}

/// Appends the four little-endian bytes of `v`.
pub fn push_le_u32(out: &mut Vec<u8>, v: u32)
    ensures
        final(out)@ == old(out)@ + le_bytes(v),
{
    out.push((v % 256) as u8);
    out.push(((v / 256) % 256) as u8);
    out.push(((v / 65536) % 256) as u8);
    out.push(((v / 16777216) % 256) as u8);
    assert(final(out)@ =~= old(out)@ + le_bytes(v));
}

/// Appends the bytes of `src`.
pub fn push_all(out: &mut Vec<u8>, src: &[u8])
    ensures
        final(out)@ == old(out)@ + src@,
{
    let mut i: usize = 0;
    while i < src.len()
        invariant
            i <= src@.len(),
            out@ == old(out)@ + src@.subrange(0, i as int),
        decreases src@.len() - i,
    {
        out.push(src[i]);
        i = i + 1;
        assert(out@ =~= old(out)@ + src@.subrange(0, i as int));
    }
    assert(src@.subrange(0, src@.len() as int) =~= src@);
}

/// A copy of the bytes of `src` from `start` to `end`.
pub fn copy_range(src: &[u8], start: usize, end: usize) -> (r: Vec<u8>)
    requires
        start <= end <= src@.len(),
    ensures
        r@ == src@.subrange(start as int, end as int),
{
    let mut out: Vec<u8> = Vec::new();
    let mut i: usize = start;
    while i < end
        invariant
            start <= i <= end <= src@.len(),
            out@ == src@.subrange(start as int, i as int),
        decreases end - i,
    {
        out.push(src[i]);
        i = i + 1;
        assert(out@ =~= src@.subrange(start as int, i as int));
    }
    out
}

/// Whether two byte slices hold the same bytes.
pub fn bytes_equal(a: &[u8], b: &[u8]) -> (r: bool)
    ensures
        r == (a@ == b@),
{
    if a.len() != b.len() {
        return false;
    }
    let mut i: usize = 0;
    while i < a.len()
        invariant
            i <= a@.len(),
            a@.len() == b@.len(),
            forall|j: int| 0 <= j < i ==> a@[j] == b@[j],
        decreases a@.len() - i,
    {
        if a[i] != b[i] {
            return false;
        }
        i = i + 1;
    }
    assert(a@ =~= b@);
    true
}

/// Sixteen bytes of `src` from `off`, as an array.
pub fn array16_from(src: &[u8], off: usize) -> (r: [u8; 16])
    requires
        off + 16 <= src@.len(),
    ensures
        r@ == src@.subrange(off as int, off + 16),
{
    let n = src.len();
    let mut out = [0u8; 16];
    let mut i: usize = 0;
    while i < 16
        invariant
            i <= 16,
            n == src@.len(),
            off + 16 <= n,
            forall|j: int| 0 <= j < i ==> out@[j] == src@[off + j],
        decreases 16 - i,
    {
        out[i] = src[off + i];
        i = i + 1;
    }
    assert(out@ =~= src@.subrange(off as int, off + 16));
    out
}

/// Eight bytes of `src` from `off`, as an array.
pub fn array8_from(src: &[u8], off: usize) -> (r: [u8; 8])
    requires
        off + 8 <= src@.len(),
    ensures
        r@ == src@.subrange(off as int, off + 8),
{
    let n = src.len();
    let mut out = [0u8; 8];
    let mut i: usize = 0;
    while i < 8
        invariant
            i <= 8,
            n == src@.len(),
            off + 8 <= n,
            forall|j: int| 0 <= j < i ==> out@[j] == src@[off + j],
        decreases 8 - i,
    {
        out[i] = src[off + i];
        i = i + 1;
    }
    assert(out@ =~= src@.subrange(off as int, off + 8));
    out
}

} // verus!
