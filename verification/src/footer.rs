//! The footer that ends each record of the log.

use crate::bytes::{all_zero, push_u32, push_u64, push_zeros, read_u32, read_u64};
#[allow(unused_imports)]
use crate::bytes::{
    lemma_same_reads, lemma_same_u32, lemma_same_u64, lemma_u32_between, lemma_u32_bytes_len,
    lemma_u32_round_trip, lemma_u64_between, lemma_u64_bytes_len, lemma_u64_round_trip, u32_at, u32_bytes, u64_at, u64_bytes, zero_between, zeros,
};
use crate::checksum::{seal, seal_matches};
#[allow(unused_imports)]
use crate::checksum::{lemma_sealed_holds, seal_holds, sealed};
use crate::descriptor::Checkpoint;
#[allow(unused_imports)]
use crate::descriptor::has_magic;
use crate::layout::{BLOCK_SIZE, FORMAT_VERSION, MAXIMUM_PAYLOAD_BLOCKS};
use vstd::prelude::*;

verus! {

/// The kind byte of a record of payload blocks.
pub const RECORD_KIND_WRITE: u8 = 1;

/// Where the logical block numbers start.
pub const FOOTER_LBA_OFFSET: usize = 32;

/// Where the payload checksums start.
pub const FOOTER_PAYLOAD_CHECKSUM_OFFSET: usize = 1384;

/// Where the footer's own checksum stands.
pub const FOOTER_CHECKSUM_OFFSET: usize = 4088;

/// One payload block of a record.
#[derive(Clone, Copy, Debug, PartialEq, Eq, Structural)]
pub struct RecoveredWrite {
    pub lba: u32,
    pub checksum: u64,
    pub payload_block: u32,
}

/// The first four bytes of a footer.
pub open spec fn footer_magic() -> Seq<u8> {
    seq![0x56u8, 0x42, 0x4c, 0x46]
}

/// A footer for one payload block, up to its checksum.
pub open spec fn footer_content(
    volume_id: u64,
    lsn: u64,
    previous_footer_block: u32,
    footer_block: u32,
    lba: u32,
    payload_checksum: u64,
) -> Seq<u8> {
    footer_magic() + seq![1u8, 1u8, 0u8, 0u8] + u64_bytes(volume_id) + u64_bytes(lsn) + u32_bytes(
        previous_footer_block,
    ) + u32_bytes(footer_block) + u32_bytes(lba) + zeros(1348) + u64_bytes(payload_checksum)
        + zeros(2696)
}

/// A footer for one payload block.
pub open spec fn footer_of(
    volume_id: u64,
    lsn: u64,
    previous_footer_block: u32,
    footer_block: u32,
    lba: u32,
    payload_checksum: u64,
) -> Seq<u8> {
    sealed(
        footer_content(volume_id, lsn, previous_footer_block, footer_block, lba, payload_checksum),
    )
}

/// The logical block of payload `index` of a record.
pub open spec fn lba_at(footer: Seq<u8>, index: int) -> u32 {
    u32_at(footer, 32 + 4 * index)
}

/// How many payload blocks lie between the cursor's last footer and `footer_block`.
pub open spec fn payload_count(cursor: Checkpoint, footer_block: u32) -> int {
    footer_block - cursor.last_footer_block - 1
}

/// Whether `footer`, found at `footer_block`, ends the record that follows the cursor.
pub open spec fn valid_footer(footer: Seq<u8>, cursor: Checkpoint, footer_block: u32) -> bool {
    let count = payload_count(cursor, footer_block);
    &&& 1 <= count <= MAXIMUM_PAYLOAD_BLOCKS
    &&& seal_holds(footer)
    &&& has_magic(footer, footer_magic())
    &&& footer[4] == FORMAT_VERSION
    &&& footer[5] == RECORD_KIND_WRITE
    &&& footer[6] == 0
    &&& footer[7] == 0
    &&& u64_at(footer, 8) == cursor.volume_id
    &&& u64_at(footer, 16) == cursor.checkpoint_lsn + 1
    &&& u32_at(footer, 24) == cursor.last_footer_block
    &&& u32_at(footer, 28) == footer_block
    &&& zero_between(footer, 32 + 4 * count, 1384)
    &&& zero_between(footer, 1384 + 8 * count, 4088)
    &&& forall|i: int| 0 <= i < count ==> #[trigger] lba_at(footer, i) < cursor.volume_blocks
    &&& forall|i: int, j: int|
        0 <= i < j < count ==> #[trigger] lba_at(footer, i) != #[trigger] lba_at(footer, j)
}

/// Payload `index` of the record that `footer` ends.
pub open spec fn write_at(footer: Seq<u8>, cursor: Checkpoint, index: int) -> RecoveredWrite {
    RecoveredWrite {
        lba: lba_at(footer, index),
        checksum: u64_at(footer, 1384 + 8 * index),
        payload_block: (cursor.last_footer_block + 1 + index) as u32,
    }
}

/// The payloads of the record that `footer` ends, in order.
pub open spec fn footer_writes(
    footer: Seq<u8>,
    cursor: Checkpoint,
    footer_block: u32,
) -> Seq<RecoveredWrite> {
    Seq::new(payload_count(cursor, footer_block) as nat, |i: int| write_at(footer, cursor, i))
}

/// What the fields of a footer's content are.
pub proof fn lemma_footer_fields(
    volume_id: u64,
    lsn: u64,
    previous_footer_block: u32,
    footer_block: u32,
    lba: u32,
    payload_checksum: u64,
)
    ensures
        ({
            let content = footer_content(
                volume_id,
                lsn,
                previous_footer_block,
                footer_block,
                lba,
                payload_checksum,
            );
            &&& content.len() == 4088
            &&& has_magic(content, footer_magic())
            &&& content[4] == 1
            &&& content[5] == 1
            &&& content[6] == 0
            &&& content[7] == 0
            &&& u64_at(content, 8) == volume_id
            &&& u64_at(content, 16) == lsn
            &&& u32_at(content, 24) == previous_footer_block
            &&& u32_at(content, 28) == footer_block
            &&& u32_at(content, 32) == lba
            &&& zero_between(content, 36, 1384)
            &&& u64_at(content, 1384) == payload_checksum
            &&& zero_between(content, 1392, 4088)
        }),
{
    broadcast use {lemma_u32_bytes_len, lemma_u64_bytes_len};

    let content = footer_content(
        volume_id,
        lsn,
        previous_footer_block,
        footer_block,
        lba,
        payload_checksum,
    );
    let h0 = footer_magic() + seq![1u8, 1u8, 0u8, 0u8];
    let f0 = u64_bytes(volume_id);
    let f1 = u64_bytes(lsn);
    let f2 = u32_bytes(previous_footer_block);
    let f3 = u32_bytes(footer_block);
    let f4 = u32_bytes(lba);
    let f5 = zeros(1348);
    let f6 = u64_bytes(payload_checksum);
    let t6 = zeros(2696);
    let t5 = f6 + t6;
    let t4 = f5 + t5;
    let t3 = f4 + t4;
    let t2 = f3 + t3;
    let t1 = f2 + t2;
    let t0 = f1 + t1;
    assert(content =~= h0 + f0 + t0);
    lemma_u64_between(h0, volume_id, t0);
    let h1 = h0 + f0;
    assert(content =~= h1 + f1 + t1);
    lemma_u64_between(h1, lsn, t1);
    let h2 = h1 + f1;
    assert(content =~= h2 + f2 + t2);
    lemma_u32_between(h2, previous_footer_block, t2);
    let h3 = h2 + f2;
    assert(content =~= h3 + f3 + t3);
    lemma_u32_between(h3, footer_block, t3);
    let h4 = h3 + f3;
    assert(content =~= h4 + f4 + t4);
    lemma_u32_between(h4, lba, t4);
    let h6 = h4 + f4 + f5;
    assert(content =~= h6 + f6 + t6);
    lemma_u64_between(h6, payload_checksum, t6);
}

/// Law: the footer written for one payload after the cursor is valid there and gives that
/// payload back.
pub proof fn law_footer_round_trip(
    cursor: Checkpoint,
    lba: u32,
    payload_checksum: u64,
)
    requires
        cursor.last_footer_block + 2 <= u32::MAX,
        cursor.checkpoint_lsn < u64::MAX,
        lba < cursor.volume_blocks,
    ensures
        ({
            let footer_block = (cursor.last_footer_block + 2) as u32;
            let footer = footer_of(
                cursor.volume_id,
                (cursor.checkpoint_lsn + 1) as u64,
                cursor.last_footer_block,
                footer_block,
                lba,
                payload_checksum,
            );
            &&& footer.len() == 4096
            &&& valid_footer(footer, cursor, footer_block)
            &&& footer_writes(footer, cursor, footer_block) == seq![
                RecoveredWrite {
                    lba,
                    checksum: payload_checksum,
                    payload_block: (cursor.last_footer_block + 1) as u32,
                },
            ]
        }),
{
    let footer_block = (cursor.last_footer_block + 2) as u32;
    let lsn = (cursor.checkpoint_lsn + 1) as u64;
    let content = footer_content(
        cursor.volume_id,
        lsn,
        cursor.last_footer_block,
        footer_block,
        lba,
        payload_checksum,
    );
    let footer = sealed(content);
    lemma_footer_fields(
        cursor.volume_id,
        lsn,
        cursor.last_footer_block,
        footer_block,
        lba,
        payload_checksum,
    );
    lemma_sealed_holds(content);
    assert forall|i: int| 0 <= i < 4088 implies footer[i] == #[trigger] content[i] by {
        assert(footer.take(4088)[i] == content[i]);
    }
    lemma_same_reads(footer, content, 4088);
    assert(lba_at(footer, 0) == lba);
    assert(write_at(footer, cursor, 0).checksum == payload_checksum);
    assert(footer_writes(footer, cursor, footer_block) =~= seq![
        RecoveredWrite {
            lba,
            checksum: payload_checksum,
            payload_block: (cursor.last_footer_block + 1) as u32,
        },
    ]);
}

/// Law: a block of zeros ends no record.
pub proof fn law_zero_block_is_no_footer(cursor: Checkpoint, footer_block: u32)
    ensures
        !valid_footer(zeros(4096), cursor, footer_block),
{
    assert(zeros(4096)[0] == 0);
}

/// Law: a block is a valid footer for at most one position in the log.
pub proof fn law_footer_is_bound_to_its_position(
    footer: Seq<u8>,
    cursor: Checkpoint,
    footer_block: u32,
    other: Checkpoint,
    other_block: u32,
)
    requires
        valid_footer(footer, cursor, footer_block),
        valid_footer(footer, other, other_block),
    ensures
        footer_block == other_block,
        cursor.volume_id == other.volume_id,
        cursor.checkpoint_lsn == other.checkpoint_lsn,
        cursor.last_footer_block == other.last_footer_block,
{
}

/// The byte at `index` of the footer of a record, up to its checksum: the head, the logical blocks
/// of its payloads, and their checksums.
pub open spec fn record_byte(
    cursor: Checkpoint,
    lbas: Seq<u32>,
    checksums: Seq<u64>,
    index: int,
) -> u8 {
    let count = lbas.len() as int;
    if index < 4 {
        footer_magic()[index]
    } else if index == 4 || index == 5 {
        1
    } else if index < 8 {
        0
    } else if index < 16 {
        u64_bytes(cursor.volume_id)[index - 8]
    } else if index < 24 {
        u64_bytes((cursor.checkpoint_lsn + 1) as u64)[index - 16]
    } else if index < 28 {
        u32_bytes(cursor.last_footer_block)[index - 24]
    } else if index < 32 {
        u32_bytes((cursor.last_footer_block + 1 + count) as u32)[index - 28]
    } else if index < 32 + 4 * count {
        u32_bytes(lbas[(index - 32) / 4])[(index - 32) % 4]
    } else if 1384 <= index < 1384 + 8 * count {
        u64_bytes(checksums[(index - 1384) / 8])[(index - 1384) % 8]
    } else {
        0
    }
}

/// The footer of the record that follows the cursor with payloads for `lbas`.
pub open spec fn record_footer(cursor: Checkpoint, lbas: Seq<u32>, checksums: Seq<u64>) -> Seq<u8> {
    sealed(Seq::new(4088, |i: int| record_byte(cursor, lbas, checksums, i)))
}

/// What the fields of the footer of a record are.
#[verifier::spinoff_prover]
#[verifier::rlimit(40)]
proof fn lemma_record_fields(cursor: Checkpoint, lbas: Seq<u32>, checksums: Seq<u64>)
    requires
        1 <= lbas.len() <= 338,
        checksums.len() == lbas.len(),
    ensures
        ({
            let footer = record_footer(cursor, lbas, checksums);
            let count = lbas.len() as int;
            &&& footer.len() == 4096
            &&& seal_holds(footer)
            &&& has_magic(footer, footer_magic())
            &&& footer[4] == 1
            &&& footer[5] == 1
            &&& footer[6] == 0
            &&& footer[7] == 0
            &&& u64_at(footer, 8) == cursor.volume_id
            &&& u64_at(footer, 16) == (cursor.checkpoint_lsn + 1) as u64
            &&& u32_at(footer, 24) == cursor.last_footer_block
            &&& u32_at(footer, 28) == (cursor.last_footer_block + 1 + count) as u32
            &&& zero_between(footer, 32 + 4 * count, 1384)
            &&& zero_between(footer, 1384 + 8 * count, 4088)
            &&& forall|i: int| 0 <= i < count ==> #[trigger] lba_at(footer, i) == lbas[i]
            &&& forall|i: int|
                0 <= i < count ==> #[trigger] u64_at(footer, 1384 + 8 * i) == checksums[i]
        }),
{
    let content = Seq::new(4088, |i: int| record_byte(cursor, lbas, checksums, i));
    let footer = record_footer(cursor, lbas, checksums);
    let count = lbas.len() as int;
    lemma_sealed_holds(content);
    assert forall|i: int| 0 <= i < 4088 implies #[trigger] footer[i] == record_byte(
        cursor,
        lbas,
        checksums,
        i,
    ) by {
        assert(footer.take(4088)[i] == content[i]);
    }
    lemma_u64_round_trip(cursor.volume_id, footer, 8);
    lemma_u64_round_trip((cursor.checkpoint_lsn + 1) as u64, footer, 16);
    lemma_u32_round_trip(cursor.last_footer_block, footer, 24);
    lemma_u32_round_trip((cursor.last_footer_block + 1 + count) as u32, footer, 28);
    assert forall|i: int| 0 <= i < count implies #[trigger] lba_at(footer, i) == lbas[i] by {
        assert forall|k: int| 0 <= k < 4 implies footer[32 + 4 * i + k] == #[trigger] u32_bytes(
            lbas[i],
        )[k] by {
            let index = 32 + 4 * i + k;
            assert((index - 32) / 4 == i && (index - 32) % 4 == k);
            assert(footer[index] == record_byte(cursor, lbas, checksums, index));
        }
        lemma_u32_round_trip(lbas[i], footer, 32 + 4 * i);
    }
    assert forall|i: int| 0 <= i < count implies #[trigger] u64_at(footer, 1384 + 8 * i)
        == checksums[i] by {
        assert forall|k: int| 0 <= k < 8 implies footer[1384 + 8 * i + k] == #[trigger] u64_bytes(
            checksums[i],
        )[k] by {
            let index = 1384 + 8 * i + k;
            assert((index - 1384) / 8 == i && (index - 1384) % 8 == k);
            assert(footer[index] == record_byte(cursor, lbas, checksums, index));
        }
        lemma_u64_round_trip(checksums[i], footer, 1384 + 8 * i);
    }
}

/// Law: a record of any number of payloads, up to the greatest, for any different logical blocks
/// that the volume has, is accepted where it follows the cursor, and gives back exactly its
/// payloads in order.
#[verifier::spinoff_prover]
#[verifier::rlimit(40)]
pub proof fn law_records_of_every_size_are_accepted(
    cursor: Checkpoint,
    lbas: Seq<u32>,
    checksums: Seq<u64>,
)
    requires
        1 <= lbas.len() <= 338,
        checksums.len() == lbas.len(),
        cursor.checkpoint_lsn < u64::MAX,
        cursor.last_footer_block + 1 + lbas.len() <= u32::MAX,
        forall|i: int| 0 <= i < lbas.len() ==> #[trigger] lbas[i] < cursor.volume_blocks,
        forall|i: int, j: int|
            0 <= i < j < lbas.len() ==> #[trigger] lbas[i] != #[trigger] lbas[j],
    ensures
        ({
            let footer = record_footer(cursor, lbas, checksums);
            let block = (cursor.last_footer_block + 1 + lbas.len()) as u32;
            &&& valid_footer(footer, cursor, block)
            &&& footer_writes(footer, cursor, block) == Seq::new(
                lbas.len(),
                |i: int|
                    RecoveredWrite {
                        lba: lbas[i],
                        checksum: checksums[i],
                        payload_block: (cursor.last_footer_block + 1 + i) as u32,
                    },
            )
        }),
{
    let footer = record_footer(cursor, lbas, checksums);
    let block = (cursor.last_footer_block + 1 + lbas.len()) as u32;
    lemma_record_fields(cursor, lbas, checksums);
    let found = footer_writes(footer, cursor, block);
    assert forall|i: int| 0 <= i < lbas.len() implies #[trigger] found[i] == (RecoveredWrite {
        lba: lbas[i],
        checksum: checksums[i],
        payload_block: (cursor.last_footer_block + 1 + i) as u32,
    }) by {
        assert(lba_at(footer, i) == lbas[i]);
        assert(u64_at(footer, 1384 + 8 * i) == checksums[i]);
    }
    assert(found =~= Seq::new(
        lbas.len(),
        |i: int|
            RecoveredWrite {
                lba: lbas[i],
                checksum: checksums[i],
                payload_block: (cursor.last_footer_block + 1 + i) as u32,
            },
    ));
}

/// Law: a record has one footer: a block that is accepted is the one that is encoded for its
/// payloads, byte for byte, and it names different logical blocks that the volume has.
#[verifier::spinoff_prover]
#[verifier::rlimit(60)]
pub proof fn law_footer_is_unique(footer: Seq<u8>, cursor: Checkpoint, footer_block: u32)
    requires
        footer.len() == 4096,
        valid_footer(footer, cursor, footer_block),
    ensures
        ({
            let count = footer_block - cursor.last_footer_block - 1;
            let lbas = Seq::new(count as nat, |i: int| lba_at(footer, i));
            let checksums = Seq::new(count as nat, |i: int| u64_at(footer, 1384 + 8 * i));
            &&& 1 <= count <= 338
            &&& footer == record_footer(cursor, lbas, checksums)
            &&& forall|i: int| 0 <= i < count ==> #[trigger] lbas[i] < cursor.volume_blocks
            &&& forall|i: int, j: int|
                0 <= i < j < count ==> #[trigger] lbas[i] != #[trigger] lbas[j]
        }),
{
    let count = footer_block - cursor.last_footer_block - 1;
    let lbas = Seq::new(count as nat, |i: int| lba_at(footer, i));
    let checksums = Seq::new(count as nat, |i: int| u64_at(footer, 1384 + 8 * i));
    let other = record_footer(cursor, lbas, checksums);
    lemma_record_fields(cursor, lbas, checksums);
    lemma_same_u64(footer, other, 8);
    lemma_same_u64(footer, other, 16);
    lemma_same_u32(footer, other, 24);
    lemma_same_u32(footer, other, 28);
    assert forall|i: int| 0 <= i < 4088 implies footer[i] == #[trigger] other[i] by {
        if 32 <= i < 32 + 4 * count {
            let at = (i - 32) / 4;
            assert(lba_at(other, at) == lbas[at]);
            lemma_same_u32(footer, other, 32 + 4 * at);
        } else if 1384 <= i < 1384 + 8 * count {
            let at = (i - 1384) / 8;
            assert(u64_at(other, 1384 + 8 * at) == checksums[at]);
            lemma_same_u64(footer, other, 1384 + 8 * at);
        } else if i >= 32 {
            assert(footer[i] == 0 && other[i] == 0);
        }
    }
    assert(footer.take(4088) =~= other.take(4088));
    lemma_same_u64(footer, other, 4088);
    assert(footer =~= other);
    assert forall|i: int| 0 <= i < count implies #[trigger] lbas[i] < cursor.volume_blocks by {
        assert(lba_at(footer, i) < cursor.volume_blocks);
    }
    assert forall|i: int, j: int| 0 <= i < j < count implies #[trigger] lbas[i]
        != #[trigger] lbas[j] by {
        assert(lba_at(footer, i) != lba_at(footer, j));
    }
}

/// The footer of a record with one payload block.
pub fn encode_write_footer(
    volume_id: u64,
    lsn: u64,
    previous_footer_block: u32,
    footer_block: u32,
    lba: u32,
    payload_checksum: u64,
) -> (footer: Vec<u8>)
    ensures
        footer@ == footer_of(
            volume_id,
            lsn,
            previous_footer_block,
            footer_block,
            lba,
            payload_checksum,
        ),
        footer@.len() == 4096,
{
    let mut content: Vec<u8> = Vec::with_capacity(BLOCK_SIZE);
    content.push(0x56);
    content.push(0x42);
    content.push(0x4c);
    content.push(0x46);
    content.push(FORMAT_VERSION);
    content.push(RECORD_KIND_WRITE);
    content.push(0);
    content.push(0);
    assert(content@ =~= footer_magic() + seq![1u8, 1u8, 0u8, 0u8]);
    push_u64(&mut content, volume_id);
    push_u64(&mut content, lsn);
    push_u32(&mut content, previous_footer_block);
    push_u32(&mut content, footer_block);
    push_u32(&mut content, lba);
    push_zeros(&mut content, 1348);
    push_u64(&mut content, payload_checksum);
    push_zeros(&mut content, 2696);
    proof {
        lemma_footer_fields(
            volume_id,
            lsn,
            previous_footer_block,
            footer_block,
            lba,
            payload_checksum,
        );
        lemma_sealed_holds(content@);
    }
    seal(content)
}

/// Whether one of `entries` is for `lba`.
fn has_lba(entries: &Vec<RecoveredWrite>, lba: u32) -> (found: bool)
    ensures
        found == exists|i: int| 0 <= i < entries@.len() && (#[trigger] entries@[i]).lba == lba,
{
    let mut i: usize = 0;
    while i < entries.len()
        invariant
            i <= entries@.len(),
            forall|j: int| 0 <= j < i ==> (#[trigger] entries@[j]).lba != lba,
        decreases entries@.len() - i,
    {
        if entries[i].lba == lba {
            return true;
        }
        i = i + 1;
    }
    false
}

/// The payloads of the record that follows `checkpoint`, if `footer`, found at `footer_block`,
/// is its footer.
pub fn decode_write_tail_footer(footer: &[u8], checkpoint: Checkpoint, footer_block: u32) -> (result:
    Option<Vec<RecoveredWrite>>)
    requires
        footer@.len() == 4096,
    ensures
        match result {
            Some(writes) => valid_footer(footer@, checkpoint, footer_block) && writes@
                == footer_writes(footer@, checkpoint, footer_block),
            None => !valid_footer(footer@, checkpoint, footer_block),
        },
{
    if footer_block <= checkpoint.last_footer_block {
        return None;
    }
    let blocks: u32 = footer_block - checkpoint.last_footer_block - 1;
    if blocks == 0 || blocks > 338 {
        return None;
    }
    if !seal_matches(footer) || footer[0] != 0x56 || footer[1] != 0x42 || footer[2] != 0x4c
        || footer[3] != 0x46 || footer[4] != FORMAT_VERSION || footer[5] != RECORD_KIND_WRITE
        || footer[6] != 0 || footer[7] != 0 || read_u64(footer, 8) != checkpoint.volume_id
        || checkpoint.checkpoint_lsn == u64::MAX || read_u64(footer, 16)
        != checkpoint.checkpoint_lsn + 1 || read_u32(footer, 24) != checkpoint.last_footer_block
        || read_u32(footer, 28) != footer_block {
        return None;
    }
    let count: usize = blocks as usize;
    if !all_zero(footer, FOOTER_LBA_OFFSET + count * 4, FOOTER_PAYLOAD_CHECKSUM_OFFSET)
        || !all_zero(footer, FOOTER_PAYLOAD_CHECKSUM_OFFSET + count * 8, FOOTER_CHECKSUM_OFFSET) {
        return None;
    }
    let mut entries: Vec<RecoveredWrite> = Vec::with_capacity(count);
    let mut index: usize = 0;
    while index < count
        invariant
            footer@.len() == 4096,
            count == payload_count(checkpoint, footer_block),
            1 <= count <= 338,
            index <= count,
            entries@.len() == index,
            forall|i: int|
                0 <= i < index ==> #[trigger] entries@[i] == write_at(footer@, checkpoint, i),
            forall|i: int|
                0 <= i < index ==> #[trigger] lba_at(footer@, i) < checkpoint.volume_blocks,
            forall|i: int, j: int|
                0 <= i < j < index ==> #[trigger] lba_at(footer@, i) != #[trigger] lba_at(
                    footer@,
                    j,
                ),
        decreases count - index,
    {
        let lba: u32 = read_u32(footer, FOOTER_LBA_OFFSET + index * 4);
        assert(lba == lba_at(footer@, index as int));
        let repeated = has_lba(&entries, lba);
        if lba >= checkpoint.volume_blocks || repeated {
            proof {
                if repeated {
                    let i = choose|i: int|
                        0 <= i < entries@.len() && (#[trigger] entries@[i]).lba == lba;
                    assert(lba_at(footer@, i) == lba_at(footer@, index as int));
                }
            }
            return None;
        }
        proof {
            assert forall|i: int| 0 <= i < index implies #[trigger] lba_at(footer@, i) != lba by {
                assert(entries@[i].lba == lba_at(footer@, i));
            }
        }
        entries.push(
            RecoveredWrite {
                lba,
                checksum: read_u64(footer, FOOTER_PAYLOAD_CHECKSUM_OFFSET + index * 8),
                payload_block: checkpoint.last_footer_block + 1 + index as u32,
            },
        );
        index = index + 1;
    }
    assert(entries@ =~= footer_writes(footer@, checkpoint, footer_block));
    Some(entries)
}

} // verus!
