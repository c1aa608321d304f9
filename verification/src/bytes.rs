//! Fixed-width integer encodings over byte sequences.
use vstd::prelude::*;

verus! {

/// Big-endian value of two bytes.
pub open spec fn be16(b0: u8, b1: u8) -> int {
    b0 * 0x100 + b1
}

/// Little-endian value of two bytes.
pub open spec fn le16(b0: u8, b1: u8) -> int {
    b0 + b1 * 0x100
}

/// Little-endian value of three bytes.
pub open spec fn le24(b0: u8, b1: u8, b2: u8) -> int {
    b0 + b1 * 0x100 + b2 * 0x10000
}

/// Big-endian value of four bytes.
pub open spec fn be32(b0: u8, b1: u8, b2: u8, b3: u8) -> int {
    b0 * 0x1000000 + b1 * 0x10000 + b2 * 0x100 + b3
}

/// Big-endian value of the four bytes of `s` starting at `i`.
pub open spec fn be32_at(s: Seq<u8>, i: int) -> int {
    be32(s[i], s[i + 1], s[i + 2], s[i + 3])
}

/// Big-endian value of the two bytes of `s` starting at `i`.
pub open spec fn be16_at(s: Seq<u8>, i: int) -> int {
    be16(s[i], s[i + 1])
}

/// Little-endian value of the two bytes of `s` starting at `i`.
pub open spec fn le16_at(s: Seq<u8>, i: int) -> int {
    le16(s[i], s[i + 1])
}

/// Little-endian value of the three bytes of `s` starting at `i`.
pub open spec fn le24_at(s: Seq<u8>, i: int) -> int {
    le24(s[i], s[i + 1], s[i + 2])
}

/// Big-endian value of the eight bytes of `s` starting at `i`.
pub open spec fn be64_at(s: Seq<u8>, i: int) -> int {
    be32_at(s, i) * 0x100000000 + be32_at(s, i + 4)
}

/// Little-endian value of the four bytes of `s` starting at `i`.
pub open spec fn le32_at(s: Seq<u8>, i: int) -> int {
    s[i] + s[i + 1] * 0x100 + s[i + 2] * 0x10000 + s[i + 3] * 0x1000000
}

/// The two bytes of `v` in big-endian order.
pub open spec fn be16_bytes(v: u16) -> Seq<u8> {
    seq![(v / 0x100) as u8, (v % 0x100) as u8]
}

/// The four bytes of `v` in big-endian order.
pub open spec fn be32_bytes(v: u32) -> Seq<u8> {
    seq![(v / 0x1000000) as u8, (v / 0x10000 % 0x100) as u8, (v / 0x100 % 0x100) as u8, (v % 0x100) as u8]
}

/// The two bytes of `v` in little-endian order.
pub open spec fn le16_bytes(v: u16) -> Seq<u8> {
    seq![(v % 0x100) as u8, (v / 0x100) as u8]
}

/// The four bytes of `v` in little-endian order.
pub open spec fn le32_bytes(v: u32) -> Seq<u8> {
    seq![(v % 0x100) as u8, (v / 0x100 % 0x100) as u8, (v / 0x10000 % 0x100) as u8, (v / 0x1000000) as u8]
}

/// The eight bytes of `v` in little-endian order.
pub open spec fn le64_bytes(v: u64) -> Seq<u8> {
    le32_bytes((v % 0x100000000) as u32) + le32_bytes((v / 0x100000000) as u32)
}

/// The eight bytes of `v` in big-endian order.
pub open spec fn be64_bytes(v: u64) -> Seq<u8> {
    be32_bytes((v / 0x100000000) as u32) + be32_bytes((v % 0x100000000) as u32)
}

/// Reads a big-endian `u32` from the first four bytes of `b`; a slice shorter than
/// four bytes reads as 0.
pub fn read_be_u32(b: &[u8]) -> (r: u32)
    ensures
        b@.len() >= 4 ==> r == be32_at(b@, 0),
        b@.len() < 4 ==> r == 0,
{
    if b.len() < 4 {
        return 0;
    }
    let (b0, b1, b2, b3) = (b[0], b[1], b[2], b[3]);
    proof { lemma_byte_compose(b0, b1, b2, b3); }
    ((b0 as u32) << 24) | ((b1 as u32) << 16) | ((b2 as u32) << 8) | (b3 as u32)
}

/// Reads a big-endian `u16` at position `i` of `b`.
pub fn be_u16_at(b: &[u8], i: usize) -> (r: u16)
    requires
        i + 2 <= b@.len(),
    ensures
        r == be16_at(b@, i as int),
{
    let (b0, b1) = (b[i], b[i + 1]);
    proof { lemma_byte_compose(b0, b1, 0, 0); }
    ((b0 as u16) << 8) | (b1 as u16)
}

/// Reads a little-endian `u16` at position `i` of `b`.
pub fn le_u16_at(b: &[u8], i: usize) -> (r: u16)
    requires
        i + 2 <= b@.len(),
    ensures
        r == le16_at(b@, i as int),
{
    let (b0, b1) = (b[i], b[i + 1]);
    proof { lemma_byte_compose(b0, b1, 0, 0); }
    (b0 as u16) | ((b1 as u16) << 8)
}

/// Reads a little-endian 24-bit value at position `i` of `b`.
pub fn le_u24_at(b: &[u8], i: usize) -> (r: i32)
    requires
        i + 3 <= b@.len(),
    ensures
        r == le24_at(b@, i as int),
        0 <= r < 0x1000000,
{
    let (b0, b1, b2) = (b[i], b[i + 1], b[i + 2]);
    proof { lemma_byte_compose(b0, b1, b2, 0); }
    let r: u32 = (b0 as u32) | ((b1 as u32) << 8) | ((b2 as u32) << 16);
    r as i32
}

/// Reads a big-endian `u32` at position `i` of `b`.
pub fn be_u32_at(b: &[u8], i: usize) -> (r: u32)
    requires
        i + 4 <= b@.len(),
    ensures
        r == be32_at(b@, i as int),
{
    let (b0, b1, b2, b3) = (b[i], b[i + 1], b[i + 2], b[i + 3]);
    proof { lemma_byte_compose(b0, b1, b2, b3); }
    ((b0 as u32) << 24) | ((b1 as u32) << 16) | ((b2 as u32) << 8) | (b3 as u32)
}

/// Reads a little-endian `u32` at position `i` of `b`.
pub fn le_u32_at(b: &[u8], i: usize) -> (r: u32)
    requires
        i + 4 <= b@.len(),
    ensures
        r == le32_at(b@, i as int),
{
    let (b0, b1, b2, b3) = (b[i], b[i + 1], b[i + 2], b[i + 3]);
    proof { lemma_byte_compose(b0, b1, b2, b3); }
    (b0 as u32) | ((b1 as u32) << 8) | ((b2 as u32) << 16) | ((b3 as u32) << 24)
}

/// Reads a big-endian `u64` at position `i` of `b`.
pub fn be_u64_at(b: &[u8], i: usize) -> (r: u64)
    requires
        i + 8 <= b@.len(),
    ensures
        r == be64_at(b@, i as int),
{
    let _ = b.len();
    let hi = be_u32_at(b, i);
    let lo = be_u32_at(b, i + 4);
    proof { lemma_word_compose(hi, lo); }
    ((hi as u64) << 32) | (lo as u64)
}

/// Appends the bytes of `b`.
pub fn push_bytes(out: &mut Vec<u8>, b: &[u8])
    ensures
        final(out)@ == old(out)@ + b@,
{
    out.extend_from_slice(b);
    assert(out@ =~= old(out)@ + b@);
}

/// Appends the two bytes of `v` in big-endian order.
pub fn push_be_u16(out: &mut Vec<u8>, v: u16)
    ensures
        final(out)@ == old(out)@ + be16_bytes(v),
{
    out.push((v >> 8) as u8);
    out.push((v & 0xff) as u8);
    proof { lemma_u16_split(v); }
}

/// Appends the four bytes of `v` in big-endian order.
pub fn push_be_u32(out: &mut Vec<u8>, v: u32)
    ensures
        final(out)@ == old(out)@ + be32_bytes(v),
{
    out.push((v >> 24) as u8);
    out.push(((v >> 16) & 0xff) as u8);
    out.push(((v >> 8) & 0xff) as u8);
    out.push((v & 0xff) as u8);
    proof { lemma_u32_split(v); }
}

/// Appends the two bytes of `v` in little-endian order.
pub fn push_le_u16(out: &mut Vec<u8>, v: u16)
    ensures
        final(out)@ == old(out)@ + le16_bytes(v),
{
    out.push((v & 0xff) as u8);
    out.push((v >> 8) as u8);
    proof { lemma_u16_split(v); }
}

/// Appends the four bytes of `v` in little-endian order.
pub fn push_le_u32(out: &mut Vec<u8>, v: u32)
    ensures
        final(out)@ == old(out)@ + le32_bytes(v),
{
    out.push((v & 0xff) as u8);
    out.push(((v >> 8) & 0xff) as u8);
    out.push(((v >> 16) & 0xff) as u8);
    out.push((v >> 24) as u8);
    proof { lemma_u32_split(v); }
}

/// Appends the eight bytes of `v` in little-endian order.
pub fn push_le_u64(out: &mut Vec<u8>, v: u64)
    ensures
        final(out)@ == old(out)@ + le64_bytes(v),
{
    let lo = (v & 0xffff_ffff) as u32;
    let hi = (v >> 32) as u32;
    proof { lemma_u64_split(v); }
    push_le_u32(out, lo);
    push_le_u32(out, hi);
    assert(final(out)@ =~= old(out)@ + le64_bytes(v));
}

/// Appends the eight bytes of `v` in big-endian order.
pub fn push_be_u64(out: &mut Vec<u8>, v: u64)
    ensures
        final(out)@ == old(out)@ + be64_bytes(v),
{
    let lo = (v & 0xffff_ffff) as u32;
    let hi = (v >> 32) as u32;
    proof { lemma_u64_split(v); }
    push_be_u32(out, hi);
    push_be_u32(out, lo);
    assert(final(out)@ =~= old(out)@ + be64_bytes(v));
}

/// Composition of bytes by shifts and masks equals the positional sum.
pub proof fn lemma_byte_compose(b0: u8, b1: u8, b2: u8, b3: u8)
    by (bit_vector)
    ensures
        ((b0 as u32) << 24) | ((b1 as u32) << 16) | ((b2 as u32) << 8) | (b3 as u32)
            == b0 * 0x1000000 + b1 * 0x10000 + b2 * 0x100 + b3,
        (b0 as u32) | ((b1 as u32) << 8) | ((b2 as u32) << 16) | ((b3 as u32) << 24)
            == b0 + b1 * 0x100 + b2 * 0x10000 + b3 * 0x1000000,
        (b0 as u32) | ((b1 as u32) << 8) | ((b2 as u32) << 16) == b0 + b1 * 0x100 + b2 * 0x10000,
        ((b0 as u16) << 8) | (b1 as u16) == b0 * 0x100 + b1,
        (b0 as u16) | ((b1 as u16) << 8) == b0 + b1 * 0x100,
{
}

/// Two 32-bit words composed into a 64-bit word.
pub proof fn lemma_word_compose(hi: u32, lo: u32)
    by (bit_vector)
    ensures
        ((hi as u64) << 32) | (lo as u64) == hi * 0x100000000 + lo,
{
}

/// Splitting a `u16` into bytes by shifts and masks.
pub proof fn lemma_u16_split(v: u16)
    by (bit_vector)
    ensures
        (v >> 8) as u8 == (v / 0x100) as u8,
        (v & 0xff) as u8 == (v % 0x100) as u8,
{
}

/// Splitting a `u32` into bytes by shifts and masks.
pub proof fn lemma_u32_split(v: u32)
    by (bit_vector)
    ensures
        v >> 24 == v / 0x1000000,
        (v >> 16) & 0xff == (v / 0x10000) % 0x100,
        (v >> 8) & 0xff == (v / 0x100) % 0x100,
        v & 0xff == v % 0x100,
{
}

/// Splitting a `u64` into 32-bit halves by shifts and masks.
pub proof fn lemma_u64_split(v: u64)
    by (bit_vector)
    ensures
        (v & 0xffff_ffff) as u32 == (v % 0x100000000) as u32,
        (v >> 32) as u32 == (v / 0x100000000) as u32,
{
}

/// The top three bits and low 13 bits of a 16-bit word.
pub proof fn lemma_u16_top3(v: u16)
    by (bit_vector)
    ensures
        v >> 13 == v / 8192,
        v & 0x1FFF == v % 8192,
{
}

/// The low and high nibbles of a byte.
pub proof fn lemma_nibbles(b: u8)
    by (bit_vector)
    ensures
        b & 0x0F == b % 16,
        (b >> 4) & 0x0F == b / 16,
{
}

/// The big-endian bytes of a `u16` read back give the `u16`.
pub proof fn lemma_be16_roundtrip(v: u16)
    ensures
        be16(be16_bytes(v)[0], be16_bytes(v)[1]) == v,
{
    lemma_be16_parts(v);
}

proof fn lemma_be16_parts(v: u16)
    by (bit_vector)
    ensures
        ((v / 0x100) as u8) as u16 * 0x100 + ((v % 0x100) as u8) as u16 == v,
{
}

proof fn lemma_be32_parts(v: u32)
    by (bit_vector)
    ensures
        ((v / 0x1000000) as u8) as u32 * 0x1000000 + ((v / 0x10000 % 0x100) as u8) as u32 * 0x10000
            + ((v / 0x100 % 0x100) as u8) as u32 * 0x100 + ((v % 0x100) as u8) as u32 == v,
{
}

/// The big-endian bytes of a `u32` read back give the `u32`.
pub proof fn lemma_be32_roundtrip(v: u32)
    ensures
        be32(be32_bytes(v)[0], be32_bytes(v)[1], be32_bytes(v)[2], be32_bytes(v)[3]) == v,
{
    lemma_be32_parts(v);
}

/// The big-endian bytes of a `u64` read back give the `u64`.
pub proof fn lemma_be64_roundtrip(v: u64)
    ensures
        be64_at(be64_bytes(v), 0) == v,
{
    let hi = (v / 0x100000000) as u32;
    let lo = (v % 0x100000000) as u32;
    lemma_be32_roundtrip(hi);
    lemma_be32_roundtrip(lo);
    let b = be64_bytes(v);
    assert(b.subrange(0, 4) =~= be32_bytes(hi));
    assert(b.subrange(4, 8) =~= be32_bytes(lo));
    assert(be32_at(b, 0) == hi);
    assert(be32_at(b, 4) == lo);
}

/// Signed values survive the round trip through their unsigned bit patterns.
pub proof fn lemma_signed_casts(a: i8, b: i16, c: i32, d: i64)
    by (bit_vector)
    ensures
        (a as u8) as i8 == a,
        (b as u16) as i16 == b,
        (c as u32) as i32 == c,
        (d as u64) as i64 == d,
{
}

} // verus!
