//! The XXH3 checksums of the volume format.

use crate::bytes::{copy_of, push_u32, push_u64, push_zeros, read_u64};
#[allow(unused_imports)]
use crate::bytes::{lemma_u64_bytes_len, lemma_u64_round_trip, u32_bytes, u64_at, u64_bytes, zeros};
use vstd::prelude::*;
use xxhash_rust::xxh3::{xxh3_64, Xxh3};

verus! {

/// The streaming XXH3 hasher.
#[verifier::external_type_specification]
#[verifier::external_body]
pub struct ExXxh3(Xxh3);

/// The bytes that a streaming hasher has been fed since it was made.
pub uninterp spec fn hasher_input(hasher: Xxh3) -> Seq<u8>;

/// The seed that a streaming hasher was made with.
pub uninterp spec fn hasher_seed(hasher: Xxh3) -> u64;

/// The 64-bit digest of a streaming hasher that was made with `seed` and fed `input`.
pub uninterp spec fn xxh3_digest(seed: u64, input: Seq<u8>) -> u64;

/// The 64-bit one-shot XXH3 hash of `input`.
pub uninterp spec fn xxh3_of(input: Seq<u8>) -> u64;

/// `Xxh3::new`: a hasher with seed zero that has been fed nothing.
#[verifier::external_body]
pub(crate) fn new_hasher() -> (hasher: Xxh3)
    ensures
        hasher_seed(hasher) == 0,
        hasher_input(hasher) == Seq::<u8>::empty(),
{
    Xxh3::new()
}

/// `Xxh3::with_seed`: a hasher with the given seed that has been fed nothing.
#[verifier::external_body]
fn seeded_hasher(seed: u64) -> (hasher: Xxh3)
    ensures
        hasher_seed(hasher) == seed,
        hasher_input(hasher) == Seq::<u8>::empty(),
{
    Xxh3::with_seed(seed)
}

/// `Xxh3::update`: appends `input` to what the hasher has been fed and keeps its seed.
#[verifier::external_body]
pub(crate) fn feed(hasher: &mut Xxh3, input: &[u8])
    ensures
        hasher_seed(*final(hasher)) == hasher_seed(*old(hasher)),
        hasher_input(*final(hasher)) == hasher_input(*old(hasher)) + input@,
{
    hasher.update(input)
}

/// `Xxh3::digest`: depends only on the seed and on the bytes fed so far, however they were
/// split.
#[verifier::external_body]
pub(crate) fn digest(hasher: &Xxh3) -> (value: u64)
    ensures
        value == xxh3_digest(hasher_seed(*hasher), hasher_input(*hasher)),
{
    hasher.digest()
}

/// `xxh3_64`: the one-shot hash, a function of the input alone.
#[verifier::external_body]
pub(crate) fn hash_block(input: &[u8]) -> (value: u64)
    ensures
        value == xxh3_of(input@),
{
    xxh3_64(input)
}

/// What the checksum of a payload covers: the logical block, the physical block and the bytes.
pub open spec fn payload_input(lba: u32, physical_block: u32, payload: Seq<u8>) -> Seq<u8> {
    u32_bytes(lba) + u32_bytes(physical_block) + payload
}

/// The checksum stored for `payload` at `physical_block` as the content of `lba`.
pub open spec fn payload_checksum_of(
    volume_id: u64,
    lba: u32,
    physical_block: u32,
    payload: Seq<u8>,
) -> u64 {
    xxh3_digest(volume_id, payload_input(lba, physical_block, payload))
}

/// Hashes a payload together with its logical and physical address, seeded by the volume.
pub fn payload_checksum(volume_id: u64, lba: u32, physical_block: u32, payload: &[u8]) -> (value:
    u64)
    ensures
        value == payload_checksum_of(volume_id, lba, physical_block, payload@),
{
    let mut hasher = seeded_hasher(volume_id);
    let mut address: Vec<u8> = Vec::with_capacity(8);
    push_u32(&mut address, lba);
    feed(&mut hasher, address.as_slice());
    address.clear();
    push_u32(&mut address, physical_block);
    feed(&mut hasher, address.as_slice());
    feed(&mut hasher, payload);
    assert(hasher_input(hasher) =~= payload_input(lba, physical_block, payload@));
    digest(&hasher)
}

/// Where the checksum of a sealed block stands.
pub const SEAL_OFFSET: usize = 4088;

/// A block that ends in the checksum of `content` followed by eight zero bytes.
pub open spec fn sealed(content: Seq<u8>) -> Seq<u8> {
    content + u64_bytes(xxh3_of(content + zeros(8)))
}

/// Whether `block` ends in the checksum of the rest of it.
pub open spec fn seal_holds(block: Seq<u8>) -> bool {
    u64_at(block, 4088) == xxh3_of(block.take(4088) + zeros(8))
}

/// A sealed block has a seal that holds.
pub proof fn lemma_sealed_holds(content: Seq<u8>)
    requires
        content.len() == 4088,
    ensures
        sealed(content).len() == 4096,
        sealed(content).take(4088) == content,
        seal_holds(sealed(content)),
{
    broadcast use lemma_u64_bytes_len;

    let value = xxh3_of(content + zeros(8));
    assert(sealed(content).take(4088) =~= content);
    lemma_u64_round_trip(value, sealed(content), 4088);
}

/// Completes a block of which all but the checksum has been written.
pub fn seal(content: Vec<u8>) -> (block: Vec<u8>)
    requires
        content@.len() == 4088,
    ensures
        block@ == sealed(content@),
{
    let mut covered = copy_of(content.as_slice());
    push_zeros(&mut covered, 8);
    let value: u64 = hash_block(covered.as_slice());
    let mut block = content;
    push_u64(&mut block, value);
    block
}

/// Whether the checksum at the end of `block` matches the rest of it.
pub fn seal_matches(block: &[u8]) -> (valid: bool)
    requires
        block@.len() == 4096,
    ensures
        valid == seal_holds(block@),
{
    let stored: u64 = read_u64(block, SEAL_OFFSET);
    let mut covered = copy_of(block);
    covered.truncate(SEAL_OFFSET);
    assert(covered@ =~= block@.take(4088));
    push_zeros(&mut covered, 8);
    hash_block(covered.as_slice()) == stored
}

} // verus!
