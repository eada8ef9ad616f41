//! The body of a checkpoint: the map of physical blocks, then the map of checksums.

use crate::bytes::{push_u32, push_u64, read_u32, read_u64};
#[allow(unused_imports)]
use crate::bytes::{
    lemma_u32_bytes_len, lemma_u32_round_trip, lemma_u64_bytes_len, lemma_u64_round_trip, u32_at,
    u32_bytes, u64_at, u64_bytes,
};
use crate::layout::{Layout, BLOCK_SIZE};
#[allow(unused_imports)]
use crate::layout::{law_layout_regions_are_adjacent, layout_of, valid_volume_blocks};
use vstd::prelude::*;

verus! {

/// Entry `x` of a map, zero past its end.
pub open spec fn physical_entry(physical: Seq<u32>, x: int) -> u32 {
    if 0 <= x < physical.len() {
        physical[x]
    } else {
        0
    }
}

/// Entry `x` of a map, zero past its end.
pub open spec fn checksum_entry(checksums: Seq<u64>, x: int) -> u64 {
    if 0 <= x < checksums.len() {
        checksums[x]
    } else {
        0
    }
}

/// Block `index` of the map of physical blocks.
pub open spec fn physical_map_block(physical: Seq<u32>, index: int) -> Seq<u8> {
    Seq::new(4096, |j: int| u32_bytes(physical_entry(physical, 1024 * index + j / 4))[j % 4])
}

/// Block `index` of the map of checksums.
pub open spec fn checksum_map_block(checksums: Seq<u64>, index: int) -> Seq<u8> {
    Seq::new(4096, |j: int| u64_bytes(checksum_entry(checksums, 512 * index + j / 8))[j % 8])
}

/// Block `index` of a body.
pub open spec fn body_block(
    layout: Layout,
    physical: Seq<u32>,
    checksums: Seq<u64>,
    index: int,
) -> Seq<u8> {
    if index < layout.physical_map_blocks {
        physical_map_block(physical, index)
    } else {
        checksum_map_block(checksums, index - layout.physical_map_blocks)
    }
}

/// The blocks of a body.
pub open spec fn body_of(layout: Layout, physical: Seq<u32>, checksums: Seq<u64>) -> Seq<Seq<u8>> {
    Seq::new(
        (layout.physical_map_blocks + layout.checksum_map_blocks) as nat,
        |i: int| body_block(layout, physical, checksums, i),
    )
}

/// The bytes of `blocks`, one block after the other.
pub open spec fn joined(blocks: Seq<Seq<u8>>) -> Seq<u8>
    decreases blocks.len(),
{
    if blocks.len() == 0 {
        Seq::empty()
    } else {
        joined(blocks.drop_last()) + blocks.last()
    }
}

/// The first `count` entries of the map of physical blocks in `blocks`.
pub open spec fn physical_from(blocks: Seq<Seq<u8>>, count: nat) -> Seq<u32> {
    Seq::new(count, |x: int| u32_at(blocks[x / 1024], 4 * (x % 1024)))
}

/// The first `count` entries of the map of checksums in `blocks`, which starts after
/// `physical_blocks` blocks.
pub open spec fn checksums_from(blocks: Seq<Seq<u8>>, physical_blocks: int, count: nat) -> Seq<u64> {
    Seq::new(count, |x: int| u64_at(blocks[physical_blocks + x / 512], 8 * (x % 512)))
}

/// One more block joins at the end.
pub proof fn lemma_joined_push(blocks: Seq<Seq<u8>>, count: int)
    requires
        0 <= count < blocks.len(),
    ensures
        joined(blocks.take(count + 1)) == joined(blocks.take(count)) + blocks[count],
{
    assert(blocks.take(count + 1).drop_last() =~= blocks.take(count));
}

/// Law: the maps read back from a body are the maps it was made of.
pub proof fn law_body_round_trip(physical: Seq<u32>, checksums: Seq<u64>)
    requires
        valid_volume_blocks(physical.len() as int),
        checksums.len() == physical.len(),
    ensures
        ({
            let layout = layout_of(physical.len() as int);
            let blocks = body_of(layout, physical, checksums);
            &&& physical_from(blocks, physical.len()) == physical
            &&& checksums_from(blocks, layout.physical_map_blocks as int, physical.len())
                == checksums
            &&& forall|i: int| 0 <= i < blocks.len() ==> (#[trigger] blocks[i]).len() == 4096
        }),
{
    let layout = layout_of(physical.len() as int);
    let blocks = body_of(layout, physical, checksums);
    law_layout_regions_are_adjacent(physical.len() as int);
    assert forall|x: int| 0 <= x < physical.len() implies #[trigger] physical_from(
        blocks,
        physical.len(),
    )[x] == physical[x] by {
        let block = blocks[x / 1024];
        let offset = 4 * (x % 1024);
        assert(block == physical_map_block(physical, x / 1024));
        assert forall|i: int| 0 <= i < 4 implies block[offset + i] == #[trigger] u32_bytes(
            physical[x],
        )[i] by {
            assert((offset + i) / 4 == x % 1024 && (offset + i) % 4 == i);
        }
        lemma_u32_round_trip(physical[x], block, offset);
    }
    assert forall|x: int| 0 <= x < physical.len() implies #[trigger] checksums_from(
        blocks,
        layout.physical_map_blocks as int,
        physical.len(),
    )[x] == checksums[x] by {
        let block = blocks[layout.physical_map_blocks + x / 512];
        let offset = 8 * (x % 512);
        assert(block == checksum_map_block(checksums, x / 512));
        assert forall|i: int| 0 <= i < 8 implies block[offset + i] == #[trigger] u64_bytes(
            checksums[x],
        )[i] by {
            assert((offset + i) / 8 == x % 512 && (offset + i) % 8 == i);
        }
        lemma_u64_round_trip(checksums[x], block, offset);
    }
    assert(physical_from(blocks, physical.len()) =~= physical);
    assert(checksums_from(blocks, layout.physical_map_blocks as int, physical.len()) =~= checksums);
}

/// Block `index` of the map of physical blocks.
fn encode_physical_map_block(physical: &Vec<u32>, index: u32) -> (block: Vec<u8>)
    requires
        index <= 0x20_0000,
    ensures
        block@ == physical_map_block(physical@, index as int),
{
    let mut block: Vec<u8> = Vec::with_capacity(BLOCK_SIZE);
    let first: u64 = index as u64 * 1024;
    let mut entry: u64 = 0;
    while entry < 1024
        invariant
            entry <= 1024,
            first == index * 1024,
            first <= 0x8000_0000,
            block@ == physical_map_block(physical@, index as int).take(4 * entry),
        decreases 1024 - entry,
    {
        let at: u64 = first + entry;
        let value: u32 = if at < physical.len() as u64 {
            physical[at as usize]
        } else {
            0
        };
        let ghost before = block@;
        push_u32(&mut block, value);
        proof {
            broadcast use lemma_u32_bytes_len;

            let whole = physical_map_block(physical@, index as int);
            assert forall|j: int| 0 <= j < 4 * (entry + 1) implies #[trigger] block@[j]
                == whole[j] by {
                if j < 4 * entry {
                    assert(block@[j] == before[j]);
                    assert(before[j] == whole.take(4 * entry)[j]);
                } else {
                    assert(j / 4 == entry && j % 4 == j - 4 * entry);
                    assert(block@[j] == u32_bytes(value)[j - 4 * entry]);
                }
            }
            assert(block@ =~= whole.take(4 * (entry + 1)));
        }
        entry = entry + 1;
    }
    assert(block@ =~= physical_map_block(physical@, index as int));
    block
}

/// Block `index` of the map of checksums.
fn encode_checksum_map_block(checksums: &Vec<u64>, index: u32) -> (block: Vec<u8>)
    requires
        index <= 0x40_0000,
    ensures
        block@ == checksum_map_block(checksums@, index as int),
{
    let mut block: Vec<u8> = Vec::with_capacity(BLOCK_SIZE);
    let first: u64 = index as u64 * 512;
    let mut entry: u64 = 0;
    while entry < 512
        invariant
            entry <= 512,
            first == index * 512,
            first <= 0x8000_0000,
            block@ == checksum_map_block(checksums@, index as int).take(8 * entry),
        decreases 512 - entry,
    {
        let at: u64 = first + entry;
        let value: u64 = if at < checksums.len() as u64 {
            checksums[at as usize]
        } else {
            0
        };
        let ghost before = block@;
        push_u64(&mut block, value);
        proof {
            broadcast use lemma_u64_bytes_len;

            let whole = checksum_map_block(checksums@, index as int);
            assert forall|j: int| 0 <= j < 8 * (entry + 1) implies #[trigger] block@[j]
                == whole[j] by {
                if j < 8 * entry {
                    assert(block@[j] == before[j]);
                    assert(before[j] == whole.take(8 * entry)[j]);
                } else {
                    assert(j / 8 == entry && j % 8 == j - 8 * entry);
                    assert(block@[j] == u64_bytes(value)[j - 8 * entry]);
                }
            }
            assert(block@ =~= whole.take(8 * (entry + 1)));
        }
        entry = entry + 1;
    }
    assert(block@ =~= checksum_map_block(checksums@, index as int));
    block
}

/// Block `index` of the body that holds the two maps.
pub fn encode_body_block(
    layout: &Layout,
    physical: &Vec<u32>,
    checksums: &Vec<u64>,
    index: u32,
) -> (block: Vec<u8>)
    requires
        layout.physical_map_blocks <= 0x20_0000,
        layout.checksum_map_blocks <= 0x40_0000,
        index < layout.physical_map_blocks + layout.checksum_map_blocks,
    ensures
        block@ == body_block(*layout, physical@, checksums@, index as int),
        block@.len() == 4096,
{
    if index < layout.physical_map_blocks {
        encode_physical_map_block(physical, index)
    } else {
        encode_checksum_map_block(checksums, index - layout.physical_map_blocks)
    }
}

/// `physical` with the entries of one more block appended, up to `total` entries.
pub open spec fn physical_extended(physical: Seq<u32>, block: Seq<u8>, total: int) -> Seq<u32> {
    let room = total - physical.len();
    physical + Seq::new(
        (if room < 1024 {
            room
        } else {
            1024
        }) as nat,
        |e: int| u32_at(block, 4 * e),
    )
}

/// `checksums` with the entries of one more block appended, up to `total` entries.
pub open spec fn checksums_extended(checksums: Seq<u64>, block: Seq<u8>, total: int) -> Seq<u64> {
    let room = total - checksums.len();
    checksums + Seq::new(
        (if room < 512 {
            room
        } else {
            512
        }) as nat,
        |e: int| u64_at(block, 8 * e),
    )
}

/// Appends the entries of one more block of the map of physical blocks.
pub fn load_physical(physical: &mut Vec<u32>, block: &[u8], total: u32)
    requires
        block@.len() == 4096,
        old(physical)@.len() <= total,
    ensures
        final(physical)@ == physical_extended(old(physical)@, block@, total as int),
{
    let ghost start = physical@;
    let mut entry: usize = 0;
    while entry < 1024 && physical.len() < total as usize
        invariant
            block@.len() == 4096,
            entry <= 1024,
            start.len() + entry == physical@.len(),
            physical@.len() <= total,
            physical@ == start + Seq::new(entry as nat, |e: int| u32_at(block@, 4 * e)),
        decreases 1024 - entry,
    {
        physical.push(read_u32(block, entry * 4));
        entry = entry + 1;
    }
    assert(physical@ =~= physical_extended(start, block@, total as int));
}

/// Appends the entries of one more block of the map of checksums.
pub fn load_checksums(checksums: &mut Vec<u64>, block: &[u8], total: u32)
    requires
        block@.len() == 4096,
        old(checksums)@.len() <= total,
    ensures
        final(checksums)@ == checksums_extended(old(checksums)@, block@, total as int),
{
    let ghost start = checksums@;
    let mut entry: usize = 0;
    while entry < 512 && checksums.len() < total as usize
        invariant
            block@.len() == 4096,
            entry <= 512,
            start.len() + entry == checksums@.len(),
            checksums@.len() <= total,
            checksums@ == start + Seq::new(entry as nat, |e: int| u64_at(block@, 8 * e)),
        decreases 512 - entry,
    {
        checksums.push(read_u64(block, entry * 8));
        entry = entry + 1;
    }
    assert(checksums@ =~= checksums_extended(start, block@, total as int));
}

} // verus!
