//! Little-endian integers in byte sequences.
use vstd::prelude::*;

verus! {

/// The `u16` stored little-endian at `s[i..i + 2]`.
pub open spec fn le_u16(s: Seq<u8>, i: int) -> u16 {
    (s[i] + 256 * s[i + 1]) as u16
}

/// The `u32` stored little-endian at `s[i..i + 4]`.
pub open spec fn le_u32(s: Seq<u8>, i: int) -> u32 {
    (le_u16(s, i) + 0x1_0000 * le_u16(s, i + 2)) as u32
}

/// The `u64` stored little-endian at `s[i..i + 8]`.
pub open spec fn le_u64(s: Seq<u8>, i: int) -> u64 {
    (le_u32(s, i) + 0x1_0000_0000 * le_u32(s, i + 4)) as u64
}

/// The two little-endian bytes of a `u16`.
pub open spec fn u16_le_bytes(v: u16) -> Seq<u8> {
    seq![(v % 256) as u8, (v / 256) as u8]
}

/// The four little-endian bytes of a `u32`.
pub open spec fn u32_le_bytes(v: u32) -> Seq<u8> {
    u16_le_bytes((v % 0x1_0000) as u16) + u16_le_bytes((v / 0x1_0000) as u16)
}

/// The eight little-endian bytes of a `u64`.
pub open spec fn u64_le_bytes(v: u64) -> Seq<u8> {
    u32_le_bytes((v % 0x1_0000_0000) as u32) + u32_le_bytes((v / 0x1_0000_0000) as u32)
}

/// Reading back the bytes of a value gives the value.
pub proof fn lemma_le_roundtrip(v16: u16, v32: u32, v64: u64)
    ensures
        u16_le_bytes(v16).len() == 2,
        u32_le_bytes(v32).len() == 4,
        u64_le_bytes(v64).len() == 8,
        le_u16(u16_le_bytes(v16), 0) == v16,
        le_u32(u32_le_bytes(v32), 0) == v32,
        le_u64(u64_le_bytes(v64), 0) == v64,
{
    lemma_u16_roundtrip(v16);
    lemma_u32_roundtrip(v32);
    lemma_u64_roundtrip(v64);
}

pub proof fn lemma_u16_roundtrip(v: u16)
    ensures
        u16_le_bytes(v).len() == 2,
        le_u16(u16_le_bytes(v), 0) == v,
{
}

pub proof fn lemma_u32_roundtrip(v: u32)
    ensures
        u32_le_bytes(v).len() == 4,
        le_u32(u32_le_bytes(v), 0) == v,
{
    let lo = (v % 0x1_0000) as u16;
    let hi = (v / 0x1_0000) as u16;
    lemma_u16_roundtrip(lo);
    lemma_u16_roundtrip(hi);
    let s = u32_le_bytes(v);
    assert(le_u16(s, 0) == le_u16(u16_le_bytes(lo), 0));
    assert(le_u16(s, 2) == le_u16(u16_le_bytes(hi), 0));
}

pub proof fn lemma_u64_roundtrip(v: u64)
    ensures
        u64_le_bytes(v).len() == 8,
        le_u64(u64_le_bytes(v), 0) == v,
{
    let lo = (v % 0x1_0000_0000) as u32;
    let hi = (v / 0x1_0000_0000) as u32;
    lemma_u32_roundtrip(lo);
    lemma_u32_roundtrip(hi);
    let s = u64_le_bytes(v);
    let a = u32_le_bytes(lo);
    let b = u32_le_bytes(hi);
    assert(s.subrange(0, 4) =~= a);
    assert(s[0] == a[0] && s[1] == a[1] && s[2] == a[2] && s[3] == a[3]);
    assert(s[4] == b[0] && s[5] == b[1] && s[6] == b[2] && s[7] == b[3]);
    assert(le_u32(s, 0) == le_u32(a, 0));
    assert(le_u32(s, 4) == le_u32(b, 0));
}

/// The bytes read at `i` depend only on `s[i..i + n]`.
pub proof fn lemma_le_subrange(s: Seq<u8>, i: int, t: Seq<u8>, j: int, n: int)
    requires
        0 <= i,
        i + n <= s.len(),
        0 <= j,
        j + n <= t.len(),
        s.subrange(i, i + n) == t.subrange(j, j + n),
    ensures
        n >= 2 ==> le_u16(s, i) == le_u16(t, j),
        n >= 4 ==> le_u32(s, i) == le_u32(t, j),
        n >= 8 ==> le_u64(s, i) == le_u64(t, j),
{
    let a = s.subrange(i, i + n);
    let b = t.subrange(j, j + n);
    if n >= 2 {
        assert(a[0] == b[0] && a[1] == b[1]);
    }
    if n >= 4 {
        assert(a[2] == b[2] && a[3] == b[3]);
    }
    if n >= 8 {
        assert(a[4] == b[4] && a[5] == b[5]);
        assert(a[6] == b[6] && a[7] == b[7]);
    }
}

/// The `u16` stored little-endian at `s[i..i + 2]`.
pub fn read_u16(s: &[u8], i: usize) -> (r: u16)
    requires
        i + 2 <= s@.len(),
    ensures
        r == le_u16(s@, i as int),
{
    s[i] as u16 + (s[i + 1] as u16) * 256
}

/// The `u32` stored little-endian at `s[i..i + 4]`.
pub fn read_u32(s: &[u8], i: usize) -> (r: u32)
    requires
        i + 4 <= s@.len(),
    ensures
        r == le_u32(s@, i as int),
{
    let _n = s.len();
    let lo = read_u16(s, i);
    let hi = read_u16(s, i + 2);
    lo as u32 + (hi as u32) * 0x1_0000
}

/// The `u64` stored little-endian at `s[i..i + 8]`.
pub fn read_u64(s: &[u8], i: usize) -> (r: u64)
    requires
        i + 8 <= s@.len(),
    ensures
        r == le_u64(s@, i as int),
{
    let _n = s.len();
    let lo = read_u32(s, i);
    let hi = read_u32(s, i + 4);
    lo as u64 + (hi as u64) * 0x1_0000_0000
}

/// The two little-endian bytes of `v`.
pub fn u16_to_le_bytes(v: u16) -> (r: [u8; 2])
    ensures
        r@ == u16_le_bytes(v),
{
    let r = [(v % 256) as u8, (v / 256) as u8];
    assert(r@ =~= u16_le_bytes(v));
    r
}

/// The four little-endian bytes of `v`.
pub fn u32_to_le_bytes(v: u32) -> (r: [u8; 4])
    ensures
        r@ == u32_le_bytes(v),
{
    let lo = u16_to_le_bytes((v % 0x1_0000) as u16);
    let hi = u16_to_le_bytes((v / 0x1_0000) as u16);
    let r = [lo[0], lo[1], hi[0], hi[1]];
    assert(r@ =~= u32_le_bytes(v));
    r
}

/// The eight little-endian bytes of `v`.
pub fn u64_to_le_bytes(v: u64) -> (r: [u8; 8])
    ensures
        r@ == u64_le_bytes(v),
{
    let lo = u32_to_le_bytes((v % 0x1_0000_0000) as u32);
    let hi = u32_to_le_bytes((v / 0x1_0000_0000) as u32);
    let r = [lo[0], lo[1], lo[2], lo[3], hi[0], hi[1], hi[2], hi[3]];
    assert(r@ =~= u64_le_bytes(v));
    r
}

} // verus!
