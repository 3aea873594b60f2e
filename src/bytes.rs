//! Little-endian integer decoding over byte sequences.
use vstd::prelude::*;

verus! {

/// The little-endian value of the two bytes at `i`.
pub open spec fn le16(s: Seq<u8>, i: int) -> int {
    s[i] as int + 256 * (s[i + 1] as int)
}

/// The little-endian value of the four bytes at `i`.
pub open spec fn le32(s: Seq<u8>, i: int) -> int {
    le16(s, i) + 65536 * le16(s, i + 2)
}

/// The little-endian value of the eight bytes at `i`.
pub open spec fn le64(s: Seq<u8>, i: int) -> int {
    le32(s, i) + 4294967296 * le32(s, i + 4)
}

pub fn read_u16(b: &[u8], off: usize) -> (r: u16)
    requires
        off + 2 <= b.len(),
    ensures
        r as int == le16(b@, off as int),
{
    (b[off] as u16) + (b[off + 1] as u16) * 256
}

pub fn read_u32(b: &[u8], off: usize) -> (r: u32)
    requires
        off + 4 <= b.len(),
    ensures
        r as int == le32(b@, off as int),
{
    let lo = read_u16(b, off);
    let hi = read_u16(b, off + 2);
    (lo as u32) + (hi as u32) * 65536
}

pub fn read_u64(b: &[u8], off: usize) -> (r: u64)
    requires
        off + 8 <= b.len(),
    ensures
        r as int == le64(b@, off as int),
{
    let lo = read_u32(b, off);
    let hi = read_u32(b, off + 4);
    (lo as u64) + (hi as u64) * 4294967296
}

/// Copies `N` bytes starting at `off` into a fixed-size array.
pub fn read_array<const N: usize>(b: &[u8], off: usize) -> (r: [u8; N])
    requires
        off + N <= b.len(),
    ensures
        r@ == b@.subrange(off as int, off + N),
{
    let mut a = [0u8; N];
    let mut i: usize = 0;
    while i < N
        invariant
            off + N <= b.len(),
            i <= N,
            a@.len() == N,
            forall|j: int| 0 <= j < i ==> a@[j] == b@[off + j],
        decreases N - i,
    {
        a[i] = b[off + i];
        i = i + 1;
    }
    assert(a@ =~= b@.subrange(off as int, off + N));
    a
}

/// Appends the two little-endian bytes of `v`.
pub fn push_u16(out: &mut Vec<u8>, v: u16)
    ensures
        final(out)@.len() == old(out)@.len() + 2,
        final(out)@.subrange(0, old(out)@.len() as int) == old(out)@,
        le16(final(out)@, old(out)@.len() as int) == v as int,
{
    out.push((v % 256) as u8);
    out.push((v / 256) as u8);
    assert(final(out)@.subrange(0, old(out)@.len() as int) =~= old(out)@);
}

/// Appends the four little-endian bytes of `v`.
pub fn push_u32(out: &mut Vec<u8>, v: u32)
    ensures
        final(out)@.len() == old(out)@.len() + 4,
        final(out)@.subrange(0, old(out)@.len() as int) == old(out)@,
        le32(final(out)@, old(out)@.len() as int) == v as int,
{
    let ghost start: int = out@.len() as int;
    push_u16(out, (v % 65536) as u16);
    let ghost mid = out@;
    push_u16(out, (v / 65536) as u16);
    assert(out@.subrange(0, start) =~= mid.subrange(0, start));
    assert(out@[start] == mid[start]);
    assert(out@[start + 1] == mid[start + 1]);
}

} // verus!
