//! What a volume accepts, what it refuses and what it asks of its backing, over plain numbers.

#[allow(unused_imports)]
use crate::bytes::u32_bytes;
#[allow(unused_imports)]
use crate::checksum::{payload_checksum_of, payload_input, xxh3_digest};
#[allow(unused_imports)]
use crate::device::Op;
#[allow(unused_imports)]
use crate::error::{IoFailure, StorageError};
#[allow(unused_imports)]
use crate::footer::{footer_writes, law_footer_round_trip, RecoveredWrite};
#[allow(unused_imports)]
use crate::history::Run;
#[allow(unused_imports)]
use crate::layout::{law_layout_regions_are_adjacent, valid_volume_blocks, valid_volume_bytes};
#[allow(unused_imports)]
use crate::recovery::format_refusal;
#[allow(unused_imports)]
use crate::volume::{State, StepView, VolumeOpenOptions, Work};
use vstd::prelude::*;

verus! {

/// Law: a volume can have any whole number of blocks from one up to half of the address space, and
/// no other size.
pub proof fn law_volume_sizes(volume_bytes: u64, blocks: int)
    ensures
        valid_volume_bytes(volume_bytes) <==> volume_bytes % 4096 == 0 && 4096 <= volume_bytes
            <= 8_796_093_022_208,
        valid_volume_blocks(blocks) <==> 1 <= blocks <= 2_147_483_648,
{
}

/// Law: formatting is refused exactly where the size of the volume is none that a volume can
/// have, where the backing is not made of whole blocks or has more than can be addressed, or where
/// it has no room for two descriptors, two maps of four bytes and two of eight for each logical
/// block, and one record. Each has its own error, in this order.
pub proof fn law_format_refusals(volume_bytes: u64, backing_bytes: u64)
    ensures
        ({
            let blocks = volume_bytes / 4096;
            let backing = backing_bytes / 4096;
            let sized = volume_bytes % 4096 == 0 && 1 <= blocks <= 0x8000_0000;
            let needed = 4 + 2 * ((4 * blocks + 4095) / 4096) + 2 * ((8 * blocks + 4095) / 4096);
            let refusal = format_refusal(volume_bytes, backing_bytes);
            &&& refusal is None <==> sized && backing_bytes % 4096 == 0 && needed <= backing
                <= 0x1_0000_0000
            &&& refusal == Some(StorageError::InvalidVolumeSize) <==> !sized
            &&& refusal == Some(StorageError::BackingNotBlockAligned) <==> sized && backing_bytes
                % 4096 != 0
            &&& refusal == Some(StorageError::BackingTooLarge) <==> sized && backing_bytes % 4096
                == 0 && backing > 0x1_0000_0000
            &&& refusal == Some(StorageError::BackingTooSmall) <==> sized && backing_bytes % 4096
                == 0 && backing < needed
        }),
{
    let blocks = volume_bytes / 4096;
    if valid_volume_bytes(volume_bytes) {
        law_layout_regions_are_adjacent(blocks as int);
        assert((4 * blocks + 4095) / 4096 == (blocks + 1023) / 1024);
        assert((8 * blocks + 4095) / 4096 == (blocks + 511) / 512);
    }
}

/// Law: a volume can be opened with any bound on the replay that is a whole number of blocks and
/// leaves room for a record of 338 payloads and its footer.
pub proof fn law_open_options(options: VolumeOpenOptions)
    ensures
        options.valid() <==> options.checkpoint_after_bytes % 4096 == 0
            && options.checkpoint_after_bytes >= (338 + 1) * 4096,
{
}

/// Law: a volume that has not failed accepts a write to every logical block that it has, as long
/// as a sequence number and two blocks of the log are left; each other case has its own error.
pub proof fn law_writes_are_accepted(state: State, lba: u32)
    requires
        state.wf(),
    ensures
        state.write_refusal(lba) is None <==> !state.failed && lba < state.volume_blocks
            && state.last_lsn < 0xffff_ffff_ffff_ffff && state.last_footer_block + 2
            < state.backing_blocks,
        state.write_refusal(lba) == Some(StorageError::VolumeFailed) <==> state.failed,
        state.write_refusal(lba) == Some(StorageError::InvalidLogicalBlock) <==> !state.failed
            && lba >= state.volume_blocks,
        state.write_refusal(lba) == Some(StorageError::SequenceExhausted) <==> !state.failed && lba
            < state.volume_blocks && state.last_lsn == 0xffff_ffff_ffff_ffff,
        state.write_refusal(lba) == Some(StorageError::NoSpace) <==> !state.failed && lba
            < state.volume_blocks && state.last_lsn < 0xffff_ffff_ffff_ffff
            && state.last_footer_block + 2 >= state.backing_blocks,
{
}

/// Law: a volume that has not failed accepts a read of every logical block that it has.
pub proof fn law_reads_are_accepted(state: State, lba: u32)
    ensures
        state.read_refusal(lba) is None <==> !state.failed && lba < state.volume_blocks,
        state.read_refusal(lba) == Some(StorageError::VolumeFailed) <==> state.failed,
        state.read_refusal(lba) == Some(StorageError::InvalidLogicalBlock) <==> !state.failed
            && lba >= state.volume_blocks,
{
}

/// Law: whether a write is accepted has nothing to do with which logical block it names, among
/// those that the volume has.
pub proof fn law_all_blocks_are_served_alike(state: State, lba: u32, other: u32)
    requires
        lba < state.volume_blocks,
        other < state.volume_blocks,
    ensures
        state.write_refusal(lba) == state.write_refusal(other),
        state.read_refusal(lba) == state.read_refusal(other),
{
}

/// Law: a write begins with a checkpoint exactly if its two blocks would bring the log since the
/// last one beyond the bound, and with clearing, where it needs no checkpoint, exactly if a record
/// of the greatest size behind it could reach a block that was not cleared. Otherwise its record
/// is written at once.
pub proof fn law_write_begins_as_needed(state: State, lba: u32, data: Seq<u8>)
    requires
        state.wf(),
    ensures
        ({
            let due = state.log_bytes_since_checkpoint + 2 * 4096 > state.checkpoint_after_bytes;
            let reach = state.last_footer_block + 2 + 338 + 1;
            let end = state.backing_blocks - 1;
            let uncleared = state.cleared_to < reach && state.cleared_to < end;
            &&& state.write_work(lba, data) == (if due {
                Work::Checkpoint { position: 0, write: Some((lba, data)) }
            } else if uncleared {
                Work::Clear { position: 0, lba, data }
            } else {
                Work::Record { lba, data }
            })
        }),
{
}

/// Law: a record is written in one request: the payload right behind the last footer, and behind
/// it a footer that names the logical block and the checksum of exactly this payload at exactly
/// this place.
pub proof fn law_record_is_one_request(state: State, lba: u32, data: Seq<u8>)
    requires
        state.wf(),
        state.allows(Work::Record { lba, data }),
    ensures
        ({
            let request = state.outstanding(Work::Record { lba, data });
            let cursor = crate::descriptor::Checkpoint {
                checkpoint_lsn: state.last_lsn,
                last_footer_block: state.last_footer_block,
                ..state.next_checkpoint()
            };
            let block = (state.last_footer_block + 2) as u32;
            &&& request.op matches Op::Write { block: at, bytes } && {
                &&& at == state.last_footer_block + 1
                &&& bytes.len() == 8192
                &&& bytes.take(4096) == data
                &&& footer_writes(bytes.skip(4096), cursor, block) == seq![
                    RecoveredWrite {
                        lba,
                        checksum: xxh3_digest(
                            state.volume_id,
                            u32_bytes(lba) + u32_bytes((state.last_footer_block + 1) as u32) + data,
                        ),
                        payload_block: (state.last_footer_block + 1) as u32,
                    },
                ]
            }
        }),
{
    let cursor = crate::descriptor::Checkpoint {
        checkpoint_lsn: state.last_lsn,
        last_footer_block: state.last_footer_block,
        ..state.next_checkpoint()
    };
    law_footer_round_trip(cursor, lba, state.new_checksum(lba, data));
    let footer = state.new_footer(lba, data);
    assert((data + footer).take(4096) =~= data);
    assert((data + footer).skip(4096) =~= footer);
}

/// Law: a record that has completed is published: the logical block is found where the payload
/// was written, every other one where it was, and the log has grown by one record of two blocks.
pub proof fn law_completed_record_is_published(state: State, lba: u32, data: Seq<u8>)
    requires
        state.wf(),
        state.allows(Work::Record { lba, data }),
    ensures
        ({
            let (after, work, step) = state.next(Work::Record { lba, data }, Ok(Seq::empty()));
            &&& work is Idle
            &&& step is Done
            &&& after.last_lsn == state.last_lsn + 1
            &&& after.last_footer_block == state.last_footer_block + 2
            &&& after.log_bytes_since_checkpoint == state.log_bytes_since_checkpoint + 8192
            &&& after.durable_lsn == state.durable_lsn
            &&& after.checkpoint_lsn == state.checkpoint_lsn
            &&& after.cleared_to == state.cleared_to
            &&& !after.failed
            &&& forall|other: int|
                0 <= other < state.volume_blocks ==> #[trigger] after.physical_blocks[other] == (if
                    other == lba {
                    (state.last_footer_block + 1) as u32
                } else {
                    state.physical_blocks[other]
                })
        }),
{
}

/// Law: a read asks for the one block at which the logical block is found. The answer is handed
/// out if it is a whole block that has the checksum of the logical block, refused as damaged if it
/// has another one, and fails the volume if it is no whole block.
pub proof fn law_read_answers(state: State, lba: u32, bytes: Seq<u8>)
    requires
        state.allows(Work::Read { lba }),
    ensures
        ({
            let at = state.physical_blocks[lba as int];
            let (after, work, step) = state.next(Work::Read { lba }, Ok(bytes));
            let sum = xxh3_digest(state.volume_id, u32_bytes(lba) + u32_bytes(at) + bytes);
            &&& state.outstanding(Work::Read { lba }).op == (Op::Read {
                block: at as int,
                blocks: 1,
            })
            &&& work is Idle
            &&& step == StepView::Data(bytes) <==> bytes.len() == 4096 && sum
                == state.checksums[lba as int]
            &&& step == StepView::Failed(StorageError::PayloadChecksumMismatch) <==> bytes.len()
                == 4096 && sum != state.checksums[lba as int]
            &&& step == StepView::Failed(StorageError::Io(IoFailure::ShortOperation))
                <==> bytes.len() != 4096
            &&& after.failed <==> state.failed || bytes.len() != 4096
            &&& !after.failed ==> after == state
        }),
{
}

/// Law: a flush is one sync, and when it has completed every published write is durable.
pub proof fn law_flush_is_one_sync(state: State)
    requires
        state.wf(),
    ensures
        ({
            let (after, work, step) = state.next(Work::Flush, Ok(Seq::empty()));
            &&& state.outstanding(Work::Flush).op is Sync
            &&& work is Idle
            &&& step is Done
            &&& after == State { durable_lsn: state.last_lsn, ..state }
        }),
{
}

/// Law: a volume is closed by a checkpoint if anything was written since the last one, and by a
/// flush otherwise.
pub proof fn law_close_publishes_what_changed(state: State)
    ensures
        state.close_work() == (if state.last_lsn != state.checkpoint_lsn {
            Work::Checkpoint { position: 0, write: None }
        } else {
            Work::Flush
        }),
{
}

/// Law: when a flush or a checkpoint has completed, all writes that were published are safe from
/// every crash.
pub proof fn law_completed_flush_makes_all_writes_safe(run: Run)
    requires
        run.holds(),
        run.work is Flush || (run.work matches Work::Checkpoint { position, .. } && position
            == run.state.checkpoint_len() - 1),
    ensures
        run.completed().safe == run.log.len(),
        run.completed().log == run.log,
        run.completed().state.durable_lsn == run.state.last_lsn,
        run.completed().durable == run.current,
{
    law_layout_regions_are_adjacent(run.state.volume_blocks as int);
}

/// Law: a checkpoint makes the log durable first, then writes the blocks of the map in order into
/// the slot that the last checkpoint did not use, makes them durable, and only then writes the
/// descriptor and makes that durable too.
pub proof fn law_checkpoint_order(state: State, position: int)
    requires
        state.wf(),
        0 <= position < state.checkpoint_len(),
    ensures
        ({
            let body = (4 * state.volume_blocks + 4095) / 4096 + (8 * state.volume_blocks + 4095)
                / 4096;
            let start = if state.next_checkpoint_slot is Green {
                2
            } else {
                2 + body
            };
            let slot = if state.next_checkpoint_slot is Green {
                0int
            } else {
                1
            };
            let op = state.checkpoint_request(position).op;
            &&& state.checkpoint_len() == body + 4
            &&& op is Sync <==> position == 0 || position == body + 1 || position == body + 3
            &&& 1 <= position <= body ==> (op matches Op::Write { block, bytes } && block == start
                + position - 1 && bytes == state.body()[position - 1])
            &&& position == body + 2 ==> (op matches Op::Write { block, .. } && block == slot)
        }),
{
    law_layout_regions_are_adjacent(state.volume_blocks as int);
    let blocks = state.volume_blocks;
    assert((4 * blocks + 4095) / 4096 == (blocks + 1023) / 1024);
    assert((8 * blocks + 4095) / 4096 == (blocks + 511) / 512);
}

/// Law: the checksum of a payload covers the volume, the logical block, the place and every byte.
pub proof fn law_payload_checksum_covers_everything(
    lba: u32,
    block: u32,
    payload: Seq<u8>,
    other_lba: u32,
    other_block: u32,
    other: Seq<u8>,
)
    requires
        payload_input(lba, block, payload) == payload_input(other_lba, other_block, other),
    ensures
        lba == other_lba,
        block == other_block,
        payload == other,
        forall|id: u64|
            #[trigger] payload_checksum_of(id, lba, block, payload) == xxh3_digest(
                id,
                payload_input(lba, block, payload),
            ),
{
    broadcast use crate::bytes::lemma_u32_bytes_len;

    let left = payload_input(lba, block, payload);
    let right = payload_input(other_lba, other_block, other);
    crate::bytes::lemma_u32_between(Seq::empty(), lba, u32_bytes(block) + payload);
    crate::bytes::lemma_u32_between(Seq::empty(), other_lba, u32_bytes(other_block) + other);
    crate::bytes::lemma_u32_between(u32_bytes(lba), block, payload);
    crate::bytes::lemma_u32_between(u32_bytes(other_lba), other_block, other);
    assert(Seq::<u8>::empty() + u32_bytes(lba) + (u32_bytes(block) + payload) =~= left);
    assert(Seq::<u8>::empty() + u32_bytes(other_lba) + (u32_bytes(other_block) + other) =~= right);
    assert(left.skip(8) =~= payload);
    assert(right.skip(8) =~= other);
}

/// Law: what an operation is refused or fails with has the class that callers act on: a request
/// that cannot be right is invalid input, what does not fit together on the backing is invalid
/// data, a full log is a full device, what the system reported is an input or output error, and
/// everything else is none of these.
pub proof fn law_error_kinds(error: StorageError)
    ensures
        error.kind_of() is InvalidInput <==> error is InvalidLogicalBlock || error
            is InvalidVolumeSize || error is BackingNotBlockAligned || error is BackingTooLarge
            || error is BackingTooSmall || error is InvalidCheckpointAfterBytes,
        error.kind_of() is InvalidData <==> error is PayloadChecksumMismatch || error
            is RootsDisagree || error is EqualLsnRootsDisagree || error is NoValidCheckpointBody,
        error.kind_of() is StorageFull <==> error is NoSpace,
        error.kind_of() is Io <==> (error matches StorageError::Io(failure) && failure is Os),
{
}

} // verus!
