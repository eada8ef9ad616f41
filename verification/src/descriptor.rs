//! The checkpoint descriptors in blocks 0 and 1.

use crate::bytes::{all_zero, push_u32, push_u64, push_zeros, read_u32, read_u64};
#[allow(unused_imports)]
use crate::bytes::{
    lemma_same_reads, lemma_same_u32, lemma_same_u64, lemma_u32_between, lemma_u32_bytes_len,
    lemma_u64_between, lemma_u64_bytes_len, u32_at, u32_bytes, u64_at, u64_bytes, zero_between, zeros,
};
use crate::checksum::{seal, seal_matches};
#[allow(unused_imports)]
use crate::checksum::{lemma_sealed_holds, seal_holds, sealed, xxh3_of};
use crate::layout::{backing_blocks_for, layout_for, Layout, BLOCK_SIZE, FORMAT_VERSION};
#[allow(unused_imports)]
use crate::layout::{law_layout_regions_are_adjacent, layout_of, valid_volume_blocks};
use vstd::prelude::*;

verus! {

/// Where the body checksum stands in a descriptor.
pub const CHECKPOINT_BODY_CHECKSUM_OFFSET: usize = 44;

/// One of the two places for a checkpoint.
#[derive(Clone, Copy, Debug, PartialEq, Eq, Structural)]
pub enum CheckpointSlot {
    Green,
    Blue,
}

impl CheckpointSlot {
    /// The block that holds the slot's descriptor.
    pub open spec fn number(self) -> u8 {
        match self {
            CheckpointSlot::Green => 0,
            CheckpointSlot::Blue => 1,
        }
    }

    /// The other slot.
    pub open spec fn other(self) -> CheckpointSlot {
        match self {
            CheckpointSlot::Green => CheckpointSlot::Blue,
            CheckpointSlot::Blue => CheckpointSlot::Green,
        }
    }

    pub fn index(self) -> (index: u8)
        ensures
            index == self.number(),
    {
        match self {
            CheckpointSlot::Green => 0,
            CheckpointSlot::Blue => 1,
        }
    }

    pub fn opposite(self) -> (slot: CheckpointSlot)
        ensures
            slot == self.other(),
    {
        match self {
            CheckpointSlot::Green => CheckpointSlot::Blue,
            CheckpointSlot::Blue => CheckpointSlot::Green,
        }
    }
}

/// A point in the log at which the mapping is known.
///
/// Besides the contents of a descriptor this is the cursor of log replay, whose
/// `checkpoint_lsn` and `last_footer_block` advance with each record.
#[derive(Clone, Copy, Debug, PartialEq, Eq, Structural)]
pub struct Checkpoint {
    pub slot: CheckpointSlot,
    pub volume_id: u64,
    pub volume_blocks: u32,
    pub backing_blocks: u64,
    pub checkpoint_lsn: u64,
    pub last_footer_block: u32,
    pub layout: Layout,
    pub body_checksum: u64,
}

impl Checkpoint {
    /// Geometry that fits the backing, and a log position inside it.
    pub open spec fn wf(self) -> bool {
        &&& valid_volume_blocks(self.volume_blocks as int)
        &&& self.layout == layout_of(self.volume_blocks as int)
        &&& self.layout.log_start + 2 <= self.backing_blocks <= 0x1_0000_0000
        &&& self.layout.log_start - 1 <= self.last_footer_block < self.backing_blocks
    }

    /// Whether this is the checkpoint of a freshly formatted volume.
    pub open spec fn initial(self) -> bool {
        self.checkpoint_lsn == 0 && self.last_footer_block == self.layout.log_start - 1
    }

    /// What a descriptor can say: sequence number zero and the position before the log go
    /// together, and then there is no body.
    pub open spec fn coherent(self) -> bool {
        &&& self.wf()
        &&& (self.checkpoint_lsn == 0 || self.last_footer_block == self.layout.log_start - 1)
            ==> self.initial()
        &&& self.initial() ==> self.body_checksum == 0
    }

    /// The first block of the slot's body.
    pub open spec fn body_start(self) -> int {
        match self.slot {
            CheckpointSlot::Green => self.layout.green_physical_map_start as int,
            CheckpointSlot::Blue => self.layout.blue_physical_map_start as int,
        }
    }

    /// The number of blocks of a body.
    pub open spec fn body_blocks(self) -> int {
        self.layout.physical_map_blocks + self.layout.checksum_map_blocks
    }
}

/// The first four bytes of a descriptor.
pub open spec fn checkpoint_magic() -> Seq<u8> {
    seq![0x56u8, 0x42, 0x4c, 0x43]
}

/// Whether `block` starts with the four bytes of `magic`.
pub open spec fn has_magic(block: Seq<u8>, magic: Seq<u8>) -> bool {
    block[0] == magic[0] && block[1] == magic[1] && block[2] == magic[2] && block[3] == magic[3]
}

/// The descriptor of `checkpoint` up to its checksum.
pub open spec fn descriptor_content(checkpoint: Checkpoint) -> Seq<u8> {
    checkpoint_magic() + seq![1u8, checkpoint.slot.number(), 0u8, 0u8] + u64_bytes(
        checkpoint.volume_id,
    ) + u32_bytes(4096) + u32_bytes(checkpoint.volume_blocks) + u64_bytes(checkpoint.backing_blocks)
        + u64_bytes(checkpoint.checkpoint_lsn) + u32_bytes(checkpoint.last_footer_block)
        + u64_bytes(checkpoint.body_checksum) + zeros(4036)
}

/// The descriptor block of `checkpoint`.
pub open spec fn descriptor_block(checkpoint: Checkpoint) -> Seq<u8> {
    sealed(descriptor_content(checkpoint))
}

/// The checkpoint whose fields stand in `block`, for a backing of `backing_blocks` blocks.
pub open spec fn checkpoint_in(block: Seq<u8>, slot: CheckpointSlot, backing_blocks: u64) -> Checkpoint {
    Checkpoint {
        slot,
        volume_id: u64_at(block, 8),
        volume_blocks: u32_at(block, 20),
        backing_blocks,
        checkpoint_lsn: u64_at(block, 32),
        last_footer_block: u32_at(block, 40),
        layout: layout_of(u32_at(block, 20) as int),
        body_checksum: u64_at(block, 44),
    }
}

/// Whether `block` is a descriptor for `slot` of a backing of `backing_bytes` bytes.
pub open spec fn valid_descriptor(block: Seq<u8>, slot: CheckpointSlot, backing_bytes: u64) -> bool {
    &&& seal_holds(block)
    &&& has_magic(block, checkpoint_magic())
    &&& block[4] == FORMAT_VERSION
    &&& block[5] == slot.number()
    &&& block[6] == 0
    &&& block[7] == 0
    &&& u32_at(block, 16) == 4096
    &&& zero_between(block, 52, 4088)
    &&& backing_bytes % 4096 == 0
    &&& u64_at(block, 24) == backing_bytes / 4096
    &&& checkpoint_in(block, slot, backing_bytes / 4096).coherent()
}

/// The checkpoint that `block` describes for `slot`, if it does.
pub open spec fn decoded_checkpoint(
    block: Seq<u8>,
    slot: CheckpointSlot,
    backing_bytes: u64,
) -> Option<Checkpoint> {
    if valid_descriptor(block, slot, backing_bytes) {
        Some(checkpoint_in(block, slot, backing_bytes / 4096))
    } else {
        None
    }
}

/// What the fields of a descriptor's content are.
pub proof fn lemma_descriptor_fields(checkpoint: Checkpoint)
    ensures
        ({
            let content = descriptor_content(checkpoint);
            &&& content.len() == 4088
            &&& has_magic(content, checkpoint_magic())
            &&& content[4] == 1
            &&& content[5] == checkpoint.slot.number()
            &&& content[6] == 0
            &&& content[7] == 0
            &&& u64_at(content, 8) == checkpoint.volume_id
            &&& u32_at(content, 16) == 4096
            &&& u32_at(content, 20) == checkpoint.volume_blocks
            &&& u64_at(content, 24) == checkpoint.backing_blocks
            &&& u64_at(content, 32) == checkpoint.checkpoint_lsn
            &&& u32_at(content, 40) == checkpoint.last_footer_block
            &&& u64_at(content, 44) == checkpoint.body_checksum
            &&& zero_between(content, 52, 4088)
        }),
{
    broadcast use {lemma_u32_bytes_len, lemma_u64_bytes_len};

    let content = descriptor_content(checkpoint);
    let h0 = checkpoint_magic() + seq![1u8, checkpoint.slot.number(), 0u8, 0u8];
    let f0 = u64_bytes(checkpoint.volume_id);
    let f1 = u32_bytes(4096);
    let f2 = u32_bytes(checkpoint.volume_blocks);
    let f3 = u64_bytes(checkpoint.backing_blocks);
    let f4 = u64_bytes(checkpoint.checkpoint_lsn);
    let f5 = u32_bytes(checkpoint.last_footer_block);
    let f6 = u64_bytes(checkpoint.body_checksum);
    let t6 = zeros(4036);
    let t5 = f6 + t6;
    let t4 = f5 + t5;
    let t3 = f4 + t4;
    let t2 = f3 + t3;
    let t1 = f2 + t2;
    let t0 = f1 + t1;
    assert(content =~= h0 + f0 + t0);
    lemma_u64_between(h0, checkpoint.volume_id, t0);
    let h1 = h0 + f0;
    assert(content =~= h1 + f1 + t1);
    lemma_u32_between(h1, 4096, t1);
    let h2 = h1 + f1;
    assert(content =~= h2 + f2 + t2);
    lemma_u32_between(h2, checkpoint.volume_blocks, t2);
    let h3 = h2 + f2;
    assert(content =~= h3 + f3 + t3);
    lemma_u64_between(h3, checkpoint.backing_blocks, t3);
    let h4 = h3 + f3;
    assert(content =~= h4 + f4 + t4);
    lemma_u64_between(h4, checkpoint.checkpoint_lsn, t4);
    let h5 = h4 + f4;
    assert(content =~= h5 + f5 + t5);
    lemma_u32_between(h5, checkpoint.last_footer_block, t5);
    let h6 = h5 + f5;
    assert(content =~= h6 + f6 + t6);
    lemma_u64_between(h6, checkpoint.body_checksum, t6);
}

/// Law: which checkpoints a descriptor can describe. The volume has between one block and half of
/// the address space, the backing has room for the maps and a record and can be addressed, the
/// last footer lies in the backing and not before the log, and either nothing was written, then
/// there is no sequence number, no footer and no body, or there are a number and a footer.
pub proof fn law_coherent_checkpoints(checkpoint: Checkpoint)
    requires
        checkpoint.layout == layout_of(checkpoint.volume_blocks as int),
    ensures
        ({
            let blocks = checkpoint.volume_blocks as int;
            let log = 2 + 2 * ((4 * blocks + 4095) / 4096) + 2 * ((8 * blocks + 4095) / 4096);
            checkpoint.coherent() <==> {
                &&& 1 <= blocks <= 0x8000_0000
                &&& log + 2 <= checkpoint.backing_blocks <= 0x1_0000_0000
                &&& {
                    ||| {
                        &&& checkpoint.checkpoint_lsn == 0
                        &&& checkpoint.last_footer_block == log - 1
                        &&& checkpoint.body_checksum == 0
                    }
                    ||| {
                        &&& checkpoint.checkpoint_lsn > 0
                        &&& log <= checkpoint.last_footer_block < checkpoint.backing_blocks
                    }
                }
            }
        }),
{
    let blocks = checkpoint.volume_blocks as int;
    if valid_volume_blocks(blocks) {
        law_layout_regions_are_adjacent(blocks);
        assert((4 * blocks + 4095) / 4096 == (blocks + 1023) / 1024);
        assert((8 * blocks + 4095) / 4096 == (blocks + 511) / 512);
    }
}

/// Law: decoding the descriptor of a coherent checkpoint gives that checkpoint back.
pub proof fn law_descriptor_round_trip(checkpoint: Checkpoint)
    requires
        checkpoint.coherent(),
    ensures
        descriptor_block(checkpoint).len() == 4096,
        decoded_checkpoint(
            descriptor_block(checkpoint),
            checkpoint.slot,
            (checkpoint.backing_blocks * 4096) as u64,
        ) == Some(checkpoint),
{
    let content = descriptor_content(checkpoint);
    let block = descriptor_block(checkpoint);
    lemma_descriptor_fields(checkpoint);
    lemma_sealed_holds(content);
    assert forall|i: int| 0 <= i < 4088 implies block[i] == #[trigger] content[i] by {
        assert(block.take(4088)[i] == content[i]);
    }
    lemma_same_reads(block, content, 4088);
    assert(checkpoint_in(block, checkpoint.slot, checkpoint.backing_blocks) == checkpoint);
}

/// Law: a descriptor is refused in the other slot.
pub proof fn law_descriptor_is_bound_to_its_slot(
    block: Seq<u8>,
    slot: CheckpointSlot,
    backing_bytes: u64,
)
    requires
        decoded_checkpoint(block, slot, backing_bytes) is Some,
    ensures
        decoded_checkpoint(block, slot.other(), backing_bytes) is None,
{
}

/// Law: a checkpoint has one descriptor: a block from which it is decoded is the one that is
/// encoded for it, byte for byte.
#[verifier::spinoff_prover]
#[verifier::rlimit(40)]
pub proof fn law_descriptor_is_unique(
    block: Seq<u8>,
    slot: CheckpointSlot,
    backing_bytes: u64,
)
    requires
        block.len() == 4096,
        decoded_checkpoint(block, slot, backing_bytes) is Some,
    ensures
        block == descriptor_block(decoded_checkpoint(block, slot, backing_bytes)->0),
        decoded_checkpoint(block, slot, backing_bytes)->0.coherent(),
        decoded_checkpoint(block, slot, backing_bytes)->0.slot == slot,
        decoded_checkpoint(block, slot, backing_bytes)->0.backing_blocks * 4096 == backing_bytes,
{
    let checkpoint = decoded_checkpoint(block, slot, backing_bytes)->0;
    let content = descriptor_content(checkpoint);
    let other = descriptor_block(checkpoint);
    lemma_descriptor_fields(checkpoint);
    lemma_sealed_holds(content);
    lemma_same_u64(block, content, 8);
    lemma_same_u32(block, content, 16);
    lemma_same_u32(block, content, 20);
    lemma_same_u64(block, content, 24);
    lemma_same_u64(block, content, 32);
    lemma_same_u32(block, content, 40);
    lemma_same_u64(block, content, 44);
    assert forall|i: int| 0 <= i < 4088 implies block[i] == #[trigger] content[i] by {
        if i >= 52 {
            assert(block[i] == 0 && content[i] == 0);
        }
    }
    assert(block.take(4088) =~= content);
    assert(u64_at(other, 4088) == xxh3_of(other.take(4088) + zeros(8)));
    lemma_same_u64(block, other, 4088);
    assert forall|i: int| 0 <= i < 4096 implies block[i] == #[trigger] other[i] by {
        if i < 4088 {
            assert(other.take(4088)[i] == content[i]);
            assert(block[i] == content[i]);
        }
    }
    assert(block =~= other);
}

/// The descriptor block of `checkpoint`.
pub fn encode_checkpoint_descriptor(checkpoint: &Checkpoint) -> (block: Vec<u8>)
    ensures
        block@ == descriptor_block(*checkpoint),
        block@.len() == 4096,
{
    let mut content: Vec<u8> = Vec::with_capacity(BLOCK_SIZE);
    content.push(0x56);
    content.push(0x42);
    content.push(0x4c);
    content.push(0x43);
    content.push(FORMAT_VERSION);
    content.push(checkpoint.slot.index());
    content.push(0);
    content.push(0);
    assert(content@ =~= checkpoint_magic() + seq![1u8, checkpoint.slot.number(), 0u8, 0u8]);
    push_u64(&mut content, checkpoint.volume_id);
    push_u32(&mut content, 4096);
    push_u32(&mut content, checkpoint.volume_blocks);
    push_u64(&mut content, checkpoint.backing_blocks);
    push_u64(&mut content, checkpoint.checkpoint_lsn);
    push_u32(&mut content, checkpoint.last_footer_block);
    push_u64(&mut content, checkpoint.body_checksum);
    push_zeros(&mut content, 4036);
    proof {
        lemma_descriptor_fields(*checkpoint);
        lemma_sealed_holds(descriptor_content(*checkpoint));
    }
    seal(content)
}

/// The checkpoint that `descriptor` describes for `expected_slot`, or nothing where any of its
/// fields is not what a volume in a backing of `backing_bytes` bytes can have.
pub fn decode_checkpoint(
    descriptor: &[u8],
    expected_slot: CheckpointSlot,
    backing_bytes: u64,
) -> (checkpoint: Option<Checkpoint>)
    requires
        descriptor@.len() == 4096,
    ensures
        checkpoint == decoded_checkpoint(descriptor@, expected_slot, backing_bytes),
{
    if !seal_matches(descriptor) || descriptor[0] != 0x56 || descriptor[1] != 0x42 || descriptor[2]
        != 0x4c || descriptor[3] != 0x43 || descriptor[4] != FORMAT_VERSION || descriptor[5]
        != expected_slot.index() || descriptor[6] != 0 || descriptor[7] != 0 || read_u32(
        descriptor,
        16,
    ) != 4096 || !all_zero(descriptor, 52, 4088) {
        return None;
    }
    let volume_blocks: u32 = read_u32(descriptor, 20);
    let (_, layout) = match layout_for(volume_blocks as u64 * 4096) {
        Ok(found) => found,
        Err(_) => {
            return None;
        },
    };
    proof {
        law_layout_regions_are_adjacent(volume_blocks as int);
    }
    let backing_blocks: u64 = match backing_blocks_for(&layout, backing_bytes) {
        Ok(found) => found,
        Err(_) => {
            return None;
        },
    };
    let checkpoint_lsn: u64 = read_u64(descriptor, 32);
    let last_footer_block: u32 = read_u32(descriptor, 40);
    let body_checksum: u64 = read_u64(descriptor, CHECKPOINT_BODY_CHECKSUM_OFFSET);
    let before_log: u32 = layout.log_start - 1;
    let initial = checkpoint_lsn == 0 && last_footer_block == before_log;
    if read_u64(descriptor, 24) != backing_blocks || last_footer_block < before_log
        || last_footer_block as u64 >= backing_blocks || ((checkpoint_lsn == 0 || last_footer_block
        == before_log) && !initial) || (initial && body_checksum != 0) {
        return None;
    }
    Some(
        Checkpoint {
            slot: expected_slot,
            volume_id: read_u64(descriptor, 8),
            volume_blocks,
            backing_blocks,
            checkpoint_lsn,
            last_footer_block,
            layout,
            body_checksum,
        },
    )
}

} // verus!
