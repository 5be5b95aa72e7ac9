//! Fixed-width integers in byte buffers, and searches over sequences.

use vstd::prelude::*;

verus! {

/// The little-endian value of two bytes.
pub open spec fn le16(s: Seq<u8>, at: int) -> int {
    s[at] + 0x100 * s[at + 1]
}

/// The little-endian value of four bytes.
pub open spec fn le32(s: Seq<u8>, at: int) -> int {
    s[at] + 0x100 * s[at + 1] + 0x1_0000 * s[at + 2] + 0x100_0000 * s[at + 3]
}

/// The big-endian value of two bytes.
pub open spec fn be16(s: Seq<u8>, at: int) -> int {
    0x100 * s[at] + s[at + 1]
}

/// The big-endian value of four bytes.
pub open spec fn be32(s: Seq<u8>, at: int) -> int {
    0x100_0000 * s[at] + 0x1_0000 * s[at + 1] + 0x100 * s[at + 2] + s[at + 3]
}

/// The two's-complement reading of an unsigned value of the given modulus.
pub open spec fn twos_complement(value: int, modulus: int) -> int {
    if value < modulus / 2 {
        value
    } else {
        value - modulus
    }
}

/// The two bytes of `value`, least significant first.
pub open spec fn le16_bytes(value: int) -> Seq<u8> {
    seq![(value % 0x100) as u8, (value / 0x100 % 0x100) as u8]
}

/// The four bytes of `value`, least significant first.
pub open spec fn le32_bytes(value: int) -> Seq<u8> {
    seq![
        (value % 0x100) as u8,
        (value / 0x100 % 0x100) as u8,
        (value / 0x1_0000 % 0x100) as u8,
        (value / 0x100_0000 % 0x100) as u8,
    ]
}

/// The two bytes of `value`, most significant first.
pub open spec fn be16_bytes(value: int) -> Seq<u8> {
    seq![(value / 0x100 % 0x100) as u8, (value % 0x100) as u8]
}

/// The four bytes of `value`, most significant first.
pub open spec fn be32_bytes(value: int) -> Seq<u8> {
    seq![
        (value / 0x100_0000 % 0x100) as u8,
        (value / 0x1_0000 % 0x100) as u8,
        (value / 0x100 % 0x100) as u8,
        (value % 0x100) as u8,
    ]
}

/// Whether `count` bytes are present from `offset` on.
pub open spec fn in_bounds(s: Seq<u8>, offset: int, count: int) -> bool {
    0 <= offset && offset + count <= s.len()
}

/// The first position at or after `from` whose element satisfies `p`.
pub open spec fn first_index<T>(s: Seq<T>, p: spec_fn(T) -> bool, from: int) -> Option<int>
    decreases s.len() - from,
{
    if from >= s.len() {
        None
    } else if p(s[from]) {
        Some(from)
    } else {
        first_index(s, p, from + 1)
    }
}

/// `first_index` yields a matching position with no match before it, and
/// fails only where nothing matches.
pub proof fn first_index_is_first<T>(s: Seq<T>, p: spec_fn(T) -> bool, from: int)
    requires
        0 <= from,
    ensures
        match first_index(s, p, from) {
            Some(i) => from <= i < s.len() && p(s[i]) && (forall|j: int|
                from <= j < i ==> !p(#[trigger] s[j])),
            None => forall|j: int| from <= j < s.len() ==> !p(#[trigger] s[j]),
        },
    decreases s.len() - from,
{
    if from < s.len() && !p(s[from]) {
        first_index_is_first(s, p, from + 1);
    }
}

/// Reads a little-endian `u16` at `offset`, where it is in bounds.
pub fn read_le_u16(bytes: &[u8], offset: usize) -> (r: Option<u16>)
    ensures
        r is Some <==> in_bounds(bytes@, offset as int, 2),
        r is Some ==> r->Some_0 == le16(bytes@, offset as int),
{
    if offset < bytes.len() && bytes.len() - offset >= 2 {
        Some(bytes[offset] as u16 + bytes[offset + 1] as u16 * 0x100)
    } else {
        None
    }
}

/// Reads a little-endian `u32` at `offset`, where it is in bounds.
pub fn read_le_u32(bytes: &[u8], offset: usize) -> (r: Option<u32>)
    ensures
        r is Some <==> in_bounds(bytes@, offset as int, 4),
        r is Some ==> r->Some_0 == le32(bytes@, offset as int),
{
    if offset < bytes.len() && bytes.len() - offset >= 4 {
        Some(
            bytes[offset] as u32 + bytes[offset + 1] as u32 * 0x100 + bytes[offset + 2] as u32
                * 0x1_0000 + bytes[offset + 3] as u32 * 0x100_0000,
        )
    } else {
        None
    }
}

/// Reads a big-endian `u32` at `offset`, where it is in bounds.
pub fn read_be_u32(bytes: &[u8], offset: usize) -> (r: Option<u32>)
    ensures
        r is Some <==> in_bounds(bytes@, offset as int, 4),
        r is Some ==> r->Some_0 == be32(bytes@, offset as int),
{
    if offset < bytes.len() && bytes.len() - offset >= 4 {
        Some(
            bytes[offset] as u32 * 0x100_0000 + bytes[offset + 1] as u32 * 0x1_0000 + bytes[offset
                + 2] as u32 * 0x100 + bytes[offset + 3] as u32,
        )
    } else {
        None
    }
}

/// The bytes from `start` up to `end`.
pub fn copy_range(bytes: &[u8], start: usize, end: usize) -> (r: Vec<u8>)
    requires
        start <= end <= bytes@.len(),
    ensures
        r@ == bytes@.subrange(start as int, end as int),
{
    let mut out: Vec<u8> = Vec::new();
    let mut i: usize = start;
    while i < end
        invariant
            start <= i <= end <= bytes@.len(),
            out@ == bytes@.subrange(start as int, i as int),
        decreases end - i,
    {
        out.push(bytes[i]);
        i += 1;
    }
    out
}

/// A copy of the bytes.
pub fn copy_bytes(bytes: &[u8]) -> (r: Vec<u8>)
    ensures
        r@ == bytes@,
{
    assert(bytes@.subrange(0, bytes@.len() as int) =~= bytes@);
    copy_range(bytes, 0, bytes.len())
}

/// Appends every byte of `tail`.
pub fn append_bytes(out: &mut Vec<u8>, tail: &[u8])
    ensures
        final(out)@ == old(out)@ + tail@,
{
    let ghost before = out@;
    let mut i: usize = 0;
    while i < tail.len()
        invariant
            i <= tail@.len(),
            out@ == before + tail@.subrange(0, i as int),
        decreases tail@.len() - i,
    {
        out.push(tail[i]);
        i += 1;
    }
    assert(tail@.subrange(0, tail@.len() as int) == tail@);
}

/// Whether two byte strings are equal.
pub fn same_bytes(left: &[u8], right: &[u8]) -> (r: bool)
    ensures
        r == (left@ == right@),
{
    if left.len() != right.len() {
        return false;
    }
    let mut i: usize = 0;
    while i < left.len()
        invariant
            i <= left@.len(),
            left@.len() == right@.len(),
            forall|j: int| 0 <= j < i ==> left@[j] == right@[j],
        decreases left@.len() - i,
    {
        if left[i] != right[i] {
            return false;
        }
        i += 1;
    }
    assert(left@ =~= right@);
    true
}

/// Whether two texts are equal.
pub fn same_text(left: &str, right: &str) -> (r: bool)
    ensures
        r == (left@ == right@),
{
    proof {
        vstd::utf8::encode_utf8_decode_utf8(left@);
        vstd::utf8::encode_utf8_decode_utf8(right@);
    }
    same_bytes(left.as_bytes(), right.as_bytes())
}

/// Reading four little-endian bytes back gives the value they were made of.
pub proof fn le32_of_bytes(value: u32)
    ensures
        le32(le32_bytes(value as int), 0) == value,
        le32_bytes(value as int).len() == 4,
{
}

/// Reading two little-endian bytes back gives the value they were made of.
pub proof fn le16_of_bytes(value: u16)
    ensures
        le16(le16_bytes(value as int), 0) == value,
        le16_bytes(value as int).len() == 2,
{
}

/// Reading four big-endian bytes back gives the value they were made of.
pub proof fn be32_of_bytes(value: u32)
    ensures
        be32(be32_bytes(value as int), 0) == value,
        be32_bytes(value as int).len() == 4,
{
}

} // verus!
