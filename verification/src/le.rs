//! Little-endian integers as byte sequences.
use vstd::prelude::*;
use zerocopy::little_endian;
use zerocopy::FromBytes;
use zerocopy::IntoBytes;

verus! {

/// The two bytes of `v`, least significant first.
#[verifier::opaque]
pub open spec fn le16(v: u16) -> Seq<u8> {
    seq![(v % 256) as u8, (v / 256) as u8]
}

/// The four bytes of `v`, least significant first.
#[verifier::opaque]
pub open spec fn le32(v: u32) -> Seq<u8> {
    seq![
        (v % 256) as u8,
        (v / 256 % 256) as u8,
        (v / 65536 % 256) as u8,
        (v / 16777216) as u8,
    ]
}

/// The eight bytes of `v`, least significant first.
#[verifier::opaque]
pub open spec fn le64(v: u64) -> Seq<u8> {
    le32((v % 0x1_0000_0000) as u32) + le32((v / 0x1_0000_0000) as u32)
}

/// The 16-bit integer whose bytes start at `off`.
#[verifier::opaque]
pub open spec fn u16_at(b: Seq<u8>, off: int) -> u16 {
    (b[off] + 256 * b[off + 1]) as u16
}

/// The 32-bit integer whose bytes start at `off`.
#[verifier::opaque]
pub open spec fn u32_at(b: Seq<u8>, off: int) -> u32 {
    (b[off] + 256 * b[off + 1] + 65536 * b[off + 2] + 16777216 * b[off + 3]) as u32
}

/// The 64-bit integer whose bytes start at `off`.
#[verifier::opaque]
pub open spec fn u64_at(b: Seq<u8>, off: int) -> u64 {
    (u32_at(b, off) + 0x1_0000_0000 * u32_at(b, off + 4)) as u64
}

/// How many bytes each integer takes.
pub proof fn lemma_le_len(a: u16, b: u32, c: u64)
    ensures
        le16(a).len() == 2,
        le32(b).len() == 4,
        le64(c).len() == 8,
{
    reveal(le16);
    reveal(le32);
    reveal(le64);
}

/// Reading the two bytes of an integer gives the integer back.
pub proof fn lemma_le16(v: u16, b: Seq<u8>, off: int)
    requires
        0 <= off,
        off + 2 <= b.len(),
    ensures
        b.subrange(off, off + 2) == le16(v) ==> u16_at(b, off) == v,
        le16(u16_at(b, off)) == b.subrange(off, off + 2),
{
    reveal(le16);
    reveal(u16_at);
    let s = b.subrange(off, off + 2);
    assert(b[off] == s[0] && b[off + 1] == s[1]);
    assert(le16(u16_at(b, off)) =~= s);
}

/// Reading the four bytes of an integer gives the integer back.
pub proof fn lemma_le32(v: u32, b: Seq<u8>, off: int)
    requires
        0 <= off,
        off + 4 <= b.len(),
    ensures
        b.subrange(off, off + 4) == le32(v) ==> u32_at(b, off) == v,
        le32(u32_at(b, off)) == b.subrange(off, off + 4),
{
    reveal(le32);
    reveal(u32_at);
    let s = b.subrange(off, off + 4);
    assert(b[off] == s[0] && b[off + 1] == s[1] && b[off + 2] == s[2] && b[off + 3] == s[3]);
    assert(le32(u32_at(b, off)) =~= s);
}

/// Reading the eight bytes of an integer gives the integer back.
pub proof fn lemma_le64(v: u64, b: Seq<u8>, off: int)
    requires
        0 <= off,
        off + 8 <= b.len(),
    ensures
        b.subrange(off, off + 8) == le64(v) ==> u64_at(b, off) == v,
        le64(u64_at(b, off)) == b.subrange(off, off + 8),
{
    reveal(le64);
    reveal(u64_at);
    let s = b.subrange(off, off + 8);
    let lo = (v % 0x1_0000_0000) as u32;
    let hi = (v / 0x1_0000_0000) as u32;
    lemma_le_len(0, lo, 0);
    lemma_le_len(0, hi, 0);
    assert(b.subrange(off, off + 4) =~= s.subrange(0, 4));
    assert(b.subrange(off + 4, off + 8) =~= s.subrange(4, 8));
    assert(le64(v).subrange(0, 4) =~= le32(lo));
    assert(le64(v).subrange(4, 8) =~= le32(hi));
    lemma_le32(lo, b, off);
    lemma_le32(hi, b, off + 4);
    let w = u64_at(b, off);
    assert((w % 0x1_0000_0000) as u32 == u32_at(b, off));
    assert((w / 0x1_0000_0000) as u32 == u32_at(b, off + 4));
    assert(le64(w) =~= s.subrange(0, 4) + s.subrange(4, 8));
    assert(s.subrange(0, 4) + s.subrange(4, 8) =~= s);
}

/// Calls `zerocopy::FromBytes::read_from_prefix` on `little_endian::U16`.
/// Claimed of it: it fails exactly on inputs shorter than two bytes, and
/// otherwise gives the integer that the first two bytes hold.
#[verifier::external_body]
pub(crate) fn read_u16(bytes: &[u8]) -> (r: Option<u16>)
    ensures
        r == (if bytes@.len() >= 2 {
            Some(u16_at(bytes@, 0))
        } else {
            None
        }),
{
    match little_endian::U16::read_from_prefix(bytes) {
        Ok((v, _)) => Some(v.get()),
        Err(_) => None,
    }
}

/// Calls `zerocopy::FromBytes::read_from_prefix` on `little_endian::U32`.
/// Claimed of it: it fails exactly on inputs shorter than four bytes, and
/// otherwise gives the integer that the first four bytes hold.
#[verifier::external_body]
pub(crate) fn read_u32(bytes: &[u8]) -> (r: Option<u32>)
    ensures
        r == (if bytes@.len() >= 4 {
            Some(u32_at(bytes@, 0))
        } else {
            None
        }),
{
    match little_endian::U32::read_from_prefix(bytes) {
        Ok((v, _)) => Some(v.get()),
        Err(_) => None,
    }
}

/// Calls `zerocopy::FromBytes::read_from_prefix` on `little_endian::U64`.
/// Claimed of it: it fails exactly on inputs shorter than eight bytes, and
/// otherwise gives the integer that the first eight bytes hold.
#[verifier::external_body]
pub(crate) fn read_u64(bytes: &[u8]) -> (r: Option<u64>)
    ensures
        r == (if bytes@.len() >= 8 {
            Some(u64_at(bytes@, 0))
        } else {
            None
        }),
{
    match little_endian::U64::read_from_prefix(bytes) {
        Ok((v, _)) => Some(v.get()),
        Err(_) => None,
    }
}

/// Calls `zerocopy::IntoBytes::as_bytes` on `little_endian::U16`. Claimed
/// of it: the bytes are those of `v`, least significant first.
#[verifier::external_body]
pub(crate) fn u16_bytes(v: u16) -> (r: Vec<u8>)
    ensures
        r@ == le16(v),
{
    little_endian::U16::new(v).as_bytes().to_vec()
}

/// Calls `zerocopy::IntoBytes::as_bytes` on `little_endian::U32`. Claimed
/// of it: the bytes are those of `v`, least significant first.
#[verifier::external_body]
pub(crate) fn u32_bytes(v: u32) -> (r: Vec<u8>)
    ensures
        r@ == le32(v),
{
    little_endian::U32::new(v).as_bytes().to_vec()
}

/// Calls `zerocopy::IntoBytes::as_bytes` on `little_endian::U64`. Claimed
/// of it: the bytes are those of `v`, least significant first.
#[verifier::external_body]
pub(crate) fn u64_bytes(v: u64) -> (r: Vec<u8>)
    ensures
        r@ == le64(v),
{
    little_endian::U64::new(v).as_bytes().to_vec()
}

} // verus!
