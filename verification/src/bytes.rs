//! Little-endian integers inside byte blocks.

use vstd::prelude::*;

verus! {

/// The four little-endian bytes of `value`.
#[verifier::opaque]
pub open spec fn u32_bytes(value: u32) -> Seq<u8> {
    seq![
        (value % 256) as u8,
        (value / 256 % 256) as u8,
        (value / 65536 % 256) as u8,
        (value / 16777216) as u8,
    ]
}

/// The eight little-endian bytes of `value`.
#[verifier::opaque]
pub open spec fn u64_bytes(value: u64) -> Seq<u8> {
    u32_bytes((value % 0x1_0000_0000) as u32) + u32_bytes((value / 0x1_0000_0000) as u32)
}

/// The little-endian `u32` that starts at `offset`.
#[verifier::opaque]
pub open spec fn u32_at(bytes: Seq<u8>, offset: int) -> u32 {
    (bytes[offset] + 256 * bytes[offset + 1] + 65536 * bytes[offset + 2] + 16777216 * bytes[offset
        + 3]) as u32
}

/// The little-endian `u64` that starts at `offset`.
#[verifier::opaque]
pub open spec fn u64_at(bytes: Seq<u8>, offset: int) -> u64 {
    (u32_at(bytes, offset) + 0x1_0000_0000 * u32_at(bytes, offset + 4)) as u64
}

/// `count` zero bytes.
pub open spec fn zeros(count: nat) -> Seq<u8> {
    Seq::new(count, |i: int| 0u8)
}

/// Whether `bytes` holds only zeros from `from` up to `to`.
pub open spec fn zero_between(bytes: Seq<u8>, from: int, to: int) -> bool {
    forall|i: int| from <= i < to ==> #[trigger] bytes[i] == 0
}

/// Four bytes make a `u32`.
pub broadcast proof fn lemma_u32_bytes_len(value: u32)
    ensures
        #[trigger] u32_bytes(value).len() == 4,
{
    reveal(u32_bytes);
}

/// Eight bytes make a `u64`.
pub broadcast proof fn lemma_u64_bytes_len(value: u64)
    ensures
        #[trigger] u64_bytes(value).len() == 8,
{
    reveal(u32_bytes);
    reveal(u64_bytes);
}

/// What is read depends only on the bytes read.
pub proof fn lemma_same_reads(left: Seq<u8>, right: Seq<u8>, end: int)
    requires
        forall|i: int| 0 <= i < end ==> left[i] == #[trigger] right[i],
    ensures
        forall|offset: int|
            0 <= offset && offset + 4 <= end ==> #[trigger] u32_at(left, offset) == u32_at(
                right,
                offset,
            ),
        forall|offset: int|
            0 <= offset && offset + 8 <= end ==> #[trigger] u64_at(left, offset) == u64_at(
                right,
                offset,
            ),
{
    reveal(u32_at);
    reveal(u64_at);
}

/// Reading a `u32` gives back the value whose bytes stand at that offset.
pub proof fn lemma_u32_round_trip(value: u32, bytes: Seq<u8>, offset: int)
    requires
        0 <= offset,
        offset + 4 <= bytes.len(),
        forall|i: int| 0 <= i < 4 ==> bytes[offset + i] == #[trigger] u32_bytes(value)[i],
    ensures
        u32_at(bytes, offset) == value,
{
    reveal(u32_bytes);
    reveal(u32_at);
    assert(bytes[offset + 0] == u32_bytes(value)[0]);
    assert(bytes[offset + 1] == u32_bytes(value)[1]);
    assert(bytes[offset + 2] == u32_bytes(value)[2]);
    assert(bytes[offset + 3] == u32_bytes(value)[3]);
    assert(value == value % 256 + 256 * (value / 256 % 256) + 65536 * (value / 65536 % 256)
        + 16777216 * (value / 16777216)) by {
        assert(value / 256 == 256 * (value / 256 / 256) + value / 256 % 256);
        assert(value / 256 / 256 == value / 65536);
        assert(value / 65536 == 256 * (value / 65536 / 256) + value / 65536 % 256);
        assert(value / 65536 / 256 == value / 16777216);
    }
}

/// Reading a `u64` gives back the value whose bytes stand at that offset.
pub proof fn lemma_u64_round_trip(value: u64, bytes: Seq<u8>, offset: int)
    requires
        0 <= offset,
        offset + 8 <= bytes.len(),
        forall|i: int| 0 <= i < 8 ==> bytes[offset + i] == #[trigger] u64_bytes(value)[i],
    ensures
        u64_at(bytes, offset) == value,
{
    broadcast use lemma_u32_bytes_len;

    reveal(u64_bytes);
    reveal(u64_at);
    let low = (value % 0x1_0000_0000) as u32;
    let high = (value / 0x1_0000_0000) as u32;
    assert forall|i: int| 0 <= i < 4 implies bytes[offset + i] == #[trigger] u32_bytes(low)[i] by {
        assert(u64_bytes(value)[i] == u32_bytes(low)[i]);
    }
    assert forall|i: int| 0 <= i < 4 implies bytes[(offset + 4) + i] == #[trigger] u32_bytes(
        high,
    )[i] by {
        assert(u64_bytes(value)[i + 4] == u32_bytes(high)[i]);
        assert(bytes[offset + (i + 4)] == u64_bytes(value)[i + 4]);
    }
    lemma_u32_round_trip(low, bytes, offset);
    lemma_u32_round_trip(high, bytes, offset + 4);
}

/// The bytes of what is read are the bytes that stand there.
pub proof fn lemma_u32_reads_its_bytes(bytes: Seq<u8>, offset: int)
    requires
        0 <= offset,
        offset + 4 <= bytes.len(),
    ensures
        forall|i: int|
            0 <= i < 4 ==> bytes[offset + i] == #[trigger] u32_bytes(u32_at(bytes, offset))[i],
{
    reveal(u32_bytes);
    reveal(u32_at);
    let (a, b, c, d) = (
        bytes[offset] as int,
        bytes[offset + 1] as int,
        bytes[offset + 2] as int,
        bytes[offset + 3] as int,
    );
    let value = u32_at(bytes, offset);
    assert(value == a + 256 * b + 65536 * c + 16777216 * d);
    assert(value % 256 == a);
    assert(value / 256 == b + 256 * c + 65536 * d);
    assert(value / 65536 == c + 256 * d);
    assert(value / 16777216 == d);
    let found = u32_bytes(value);
    assert(found[0] == bytes[offset] && found[1] == bytes[offset + 1] && found[2] == bytes[offset
        + 2] && found[3] == bytes[offset + 3]);
    assert forall|i: int| 0 <= i < 4 implies bytes[offset + i] == #[trigger] u32_bytes(value)[i] by {
        assert(i == 0 || i == 1 || i == 2 || i == 3);
    }
}

/// The bytes of what is read are the bytes that stand there.
pub proof fn lemma_u64_reads_its_bytes(bytes: Seq<u8>, offset: int)
    requires
        0 <= offset,
        offset + 8 <= bytes.len(),
    ensures
        forall|i: int|
            0 <= i < 8 ==> bytes[offset + i] == #[trigger] u64_bytes(u64_at(bytes, offset))[i],
{
    broadcast use lemma_u32_bytes_len;

    reveal(u64_bytes);
    reveal(u64_at);
    let low = u32_at(bytes, offset);
    let high = u32_at(bytes, offset + 4);
    let value = u64_at(bytes, offset);
    assert(value == low + 0x1_0000_0000 * high);
    assert(value % 0x1_0000_0000 == low && value / 0x1_0000_0000 == high);
    lemma_u32_reads_its_bytes(bytes, offset);
    lemma_u32_reads_its_bytes(bytes, offset + 4);
    assert forall|i: int| 0 <= i < 8 implies bytes[offset + i] == #[trigger] u64_bytes(value)[i] by {
        if i < 4 {
            assert(u64_bytes(value)[i] == u32_bytes(low)[i]);
        } else {
            assert(u64_bytes(value)[i] == u32_bytes(high)[i - 4]);
            assert(bytes[(offset + 4) + (i - 4)] == u32_bytes(high)[i - 4]);
        }
    }
}

/// Two sequences in which the same `u32` is read have the same four bytes there.
pub proof fn lemma_same_u32(left: Seq<u8>, right: Seq<u8>, offset: int)
    requires
        0 <= offset,
        offset + 4 <= left.len(),
        offset + 4 <= right.len(),
        u32_at(left, offset) == u32_at(right, offset),
    ensures
        forall|i: int| offset <= i < offset + 4 ==> left[i] == #[trigger] right[i],
{
    lemma_u32_reads_its_bytes(left, offset);
    lemma_u32_reads_its_bytes(right, offset);
    assert forall|i: int| offset <= i < offset + 4 implies left[i] == #[trigger] right[i] by {
        let at = i - offset;
        assert(left[offset + at] == u32_bytes(u32_at(left, offset))[at]);
        assert(right[offset + at] == u32_bytes(u32_at(right, offset))[at]);
    }
}

/// Two sequences in which the same `u64` is read have the same eight bytes there.
pub proof fn lemma_same_u64(left: Seq<u8>, right: Seq<u8>, offset: int)
    requires
        0 <= offset,
        offset + 8 <= left.len(),
        offset + 8 <= right.len(),
        u64_at(left, offset) == u64_at(right, offset),
    ensures
        forall|i: int| offset <= i < offset + 8 ==> left[i] == #[trigger] right[i],
{
    lemma_u64_reads_its_bytes(left, offset);
    lemma_u64_reads_its_bytes(right, offset);
    assert forall|i: int| offset <= i < offset + 8 implies left[i] == #[trigger] right[i] by {
        let at = i - offset;
        assert(left[offset + at] == u64_bytes(u64_at(left, offset))[at]);
        assert(right[offset + at] == u64_bytes(u64_at(right, offset))[at]);
    }
}

/// A `u32` that stands between `head` and `tail` is read back from there.
pub proof fn lemma_u32_between(head: Seq<u8>, value: u32, tail: Seq<u8>)
    ensures
        u32_at(head + u32_bytes(value) + tail, head.len() as int) == value,
{
    broadcast use lemma_u32_bytes_len;

    lemma_u32_round_trip(value, head + u32_bytes(value) + tail, head.len() as int);
}

/// A `u64` that stands between `head` and `tail` is read back from there.
pub proof fn lemma_u64_between(head: Seq<u8>, value: u64, tail: Seq<u8>)
    ensures
        u64_at(head + u64_bytes(value) + tail, head.len() as int) == value,
{
    broadcast use lemma_u64_bytes_len;

    lemma_u64_round_trip(value, head + u64_bytes(value) + tail, head.len() as int);
}

/// Appends `part`.
pub fn push_bytes(bytes: &mut Vec<u8>, part: &[u8])
    ensures
        final(bytes)@ == old(bytes)@ + part@,
{
    let mut i: usize = 0;
    while i < part.len()
        invariant
            i <= part@.len(),
            bytes@ == old(bytes)@ + part@.take(i as int),
        decreases part@.len() - i,
    {
        bytes.push(part[i]);
        i = i + 1;
    }
}

/// Appends the bytes of `value`.
pub fn push_u32(bytes: &mut Vec<u8>, value: u32)
    ensures
        final(bytes)@ == old(bytes)@ + u32_bytes(value),
{
    proof {
        reveal(u32_bytes);
    }
    bytes.push((value % 256) as u8);
    bytes.push((value / 256 % 256) as u8);
    bytes.push((value / 65536 % 256) as u8);
    bytes.push((value / 16777216) as u8);
}

/// Appends the bytes of `value`.
pub fn push_u64(bytes: &mut Vec<u8>, value: u64)
    ensures
        final(bytes)@ == old(bytes)@ + u64_bytes(value),
{
    proof {
        reveal(u64_bytes);
    }
    push_u32(bytes, (value % 0x1_0000_0000) as u32);
    push_u32(bytes, (value / 0x1_0000_0000) as u32);
}

/// Appends `count` zero bytes.
pub fn push_zeros(bytes: &mut Vec<u8>, count: usize)
    ensures
        final(bytes)@ == old(bytes)@ + zeros(count as nat),
{
    let mut i: usize = 0;
    while i < count
        invariant
            i <= count,
            bytes@ == old(bytes)@ + zeros(i as nat),
        decreases count - i,
    {
        bytes.push(0);
        i = i + 1;
    }
}

/// The little-endian `u32` at `offset`.
pub fn read_u32(bytes: &[u8], offset: usize) -> (value: u32)
    requires
        offset + 4 <= bytes.len(),
    ensures
        value == u32_at(bytes@, offset as int),
{
    proof {
        reveal(u32_at);
    }
    bytes[offset] as u32 + 256 * (bytes[offset + 1] as u32) + 65536 * (bytes[offset + 2] as u32)
        + 16777216 * (bytes[offset + 3] as u32)
}

/// The little-endian `u64` at `offset`.
pub fn read_u64(bytes: &[u8], offset: usize) -> (value: u64)
    requires
        offset + 8 <= bytes.len(),
    ensures
        value == u64_at(bytes@, offset as int),
{
    proof {
        reveal(u64_at);
    }
    read_u32(bytes, offset) as u64 + 0x1_0000_0000 * (read_u32(bytes, offset + 4) as u64)
}

/// Whether the bytes from `from` up to `to` are all zero.
pub fn all_zero(bytes: &[u8], from: usize, to: usize) -> (zero: bool)
    requires
        from <= to <= bytes@.len(),
    ensures
        zero == zero_between(bytes@, from as int, to as int),
{
    let mut i: usize = from;
    while i < to
        invariant
            from <= i <= to <= bytes@.len(),
            zero_between(bytes@, from as int, i as int),
        decreases to - i,
    {
        if bytes[i] != 0 {
            return false;
        }
        i = i + 1;
    }
    true
}

/// A block of `count` zero bytes.
pub fn zero_bytes(count: usize) -> (bytes: Vec<u8>)
    ensures
        bytes@ == zeros(count as nat),
{
    let mut bytes: Vec<u8> = Vec::with_capacity(count);
    push_zeros(&mut bytes, count);
    bytes
}

/// An owned copy of `bytes`.
pub fn copy_of(bytes: &[u8]) -> (copy: Vec<u8>)
    ensures
        copy@ == bytes@,
{
    let mut copy: Vec<u8> = Vec::with_capacity(bytes.len());
    push_bytes(&mut copy, bytes);
    copy
}

} // verus!
