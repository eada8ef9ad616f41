//! What writes, flushes, checkpoints and recovery keep of a volume's contents.

#[allow(unused_imports)]
use crate::body::law_body_round_trip;
#[allow(unused_imports)]
use crate::bytes::{u32_at, u64_at, zeros};
#[allow(unused_imports)]
use crate::checksum::payload_checksum_of;
#[allow(unused_imports)]
use crate::descriptor::{descriptor_block, law_descriptor_round_trip, Checkpoint, CheckpointSlot};
#[allow(unused_imports)]
use crate::device::{
    disk_wf, lemma_written_block, lemma_written_pair, performed, performed_all, Disk, Req,
};
#[allow(unused_imports)]
use crate::error::{IoFailure, StorageError};
#[allow(unused_imports)]
use crate::footer::{
    footer_writes, law_footer_round_trip, law_zero_block_is_no_footer, valid_footer, RecoveredWrite,
};
#[allow(unused_imports)]
use crate::layout::{law_layout_regions_are_adjacent, layout_of, valid_volume_blocks};
#[allow(unused_imports)]
use crate::recovery::{
    checksums_after, format_requests, initial_checkpoint, physical_after, Recovered,
};
#[allow(unused_imports)]
use crate::replay::{
    backing_wf, body_on, checkpoint_on, intact, lemma_replay, lemma_replay_frame, lemma_scan,
    lemma_scan_none, newest, recovered_from, replayed, replayed_from, root_on, scan, selected,
};
#[allow(unused_imports)]
use crate::volume::{State, StepView, VolumeOpenOptions, Work};
use vstd::prelude::*;

verus! {

/// Whether a record follows `recovered` on `disk`.
pub open spec fn record_follows(disk: Disk, recovered: Recovered) -> bool {
    scan(disk, recovered, recovered.cursor.last_footer_block + 2) is Some
}

/// What opening recovers of `state`.
pub open spec fn image_of(state: State, root: Checkpoint) -> Recovered {
    Recovered {
        root,
        cursor: Checkpoint {
            checkpoint_lsn: state.last_lsn,
            last_footer_block: state.last_footer_block,
            ..root
        },
        physical: state.physical_blocks,
        checksums: state.checksums,
        log_bytes: state.log_bytes_since_checkpoint as int,
    }
}

/// Whether `disk` is the backing of `state`: opening starts from the checkpoint that the volume
/// last published, and replay leads from there to the volume's mapping.
pub open spec fn anchored(disk: Disk, state: State) -> bool {
    &&& backing_wf(disk)
    &&& disk.len() == state.backing_blocks
    &&& selected(disk) matches Ok(root) && {
        &&& root.slot == state.next_checkpoint_slot.other()
        &&& root.volume_id == state.volume_id
        &&& root.volume_blocks == state.volume_blocks
        &&& root.checkpoint_lsn == state.checkpoint_lsn
        &&& replayed(disk, root_on(disk, root)) == image_of(state, root)
    }
}

/// Whether the blocks behind the log hold zeros as far as `state` says.
pub open spec fn clear_ahead(disk: Disk, state: State) -> bool {
    forall|i: int|
        state.last_footer_block < i <= state.cleared_to ==> #[trigger] disk[i] == zeros(4096)
}

/// The block that `lba` holds.
pub open spec fn content(disk: Disk, state: State, lba: int) -> Seq<u8> {
    if state.physical_blocks[lba] == 0 {
        zeros(4096)
    } else {
        disk[state.physical_blocks[lba] as int]
    }
}

/// Whether the mapping points into the log.
pub open spec fn placed(state: State) -> bool {
    forall|lba: int|
        0 <= lba < state.volume_blocks && #[trigger] state.physical_blocks[lba] != 0
            ==> state.layout().log_start <= state.physical_blocks[lba] <= state.last_footer_block
}

/// Whether the mapping points into the log, at payloads that have their checksums.
pub open spec fn readable(disk: Disk, state: State) -> bool {
    &&& disk_wf(disk)
    &&& disk.len() == state.backing_blocks
    &&& placed(state)
    &&& forall|lba: int|
        0 <= lba < state.volume_blocks && #[trigger] state.physical_blocks[lba] != 0
            ==> payload_checksum_of(
            state.volume_id,
            lba as u32,
            state.physical_blocks[lba],
            disk[state.physical_blocks[lba] as int],
        ) == state.checksums[lba]
}

/// The mapping of a valid root is sound.
proof fn lemma_root_wf(disk: Disk, root: Checkpoint)
    requires
        root.coherent(),
    ensures
        root_on(disk, root).wf(),
{
}

/// The choice of the checkpoint depends only on the blocks before the log.
pub proof fn lemma_same_selection(left: Disk, right: Disk, root: Checkpoint)
    requires
        backing_wf(left),
        right.len() == left.len(),
        selected(left) == Ok::<Checkpoint, StorageError>(root),
        forall|i: int| 0 <= i < root.layout.log_start ==> left[i] == #[trigger] right[i],
    ensures
        selected(right) == selected(left),
        newest(right) == newest(left),
        body_on(right, root) == body_on(left, root),
        root_on(right, root) == root_on(left, root),
{
    let green = checkpoint_on(left, CheckpointSlot::Green);
    let blue = checkpoint_on(left, CheckpointSlot::Blue);
    law_layout_regions_are_adjacent(root.volume_blocks as int);
    assert(left[0] == right[0]);
    assert(left[1] == right[1]);
    if let Some(checkpoint) = green {
        assert(body_on(right, checkpoint) =~= body_on(left, checkpoint));
    }
    if let Some(checkpoint) = blue {
        assert(body_on(right, checkpoint) =~= body_on(left, checkpoint));
    }
}

/// Law: opening the backing of a volume that has not failed gives that volume, with everything
/// durable.
#[verifier::spinoff_prover]
#[verifier::rlimit(40)]
pub proof fn law_recovery_gives_back_the_volume(disk: Disk, state: State)
    requires
        state.wf(),
        anchored(disk, state),
        !state.failed,
    ensures
        recovered_from(disk) matches Ok(recovered) && recovered.state(
            VolumeOpenOptions { checkpoint_after_bytes: state.checkpoint_after_bytes },
        ) == state.reopened(),
{
}

/// Nothing continues a log behind which the blocks within reach hold zeros.
pub proof fn lemma_clear_scan(disk: Disk, state: State, root: Checkpoint)
    requires
        state.wf(),
        clear_ahead(disk, state),
        root.backing_blocks == state.backing_blocks,
    ensures
        !record_follows(disk, image_of(state, root)),
{
    let end = image_of(state, root);
    let from = end.cursor.last_footer_block + 2;
    assert forall|i: int| from <= i <= end.footer_limit() implies !valid_footer(
        #[trigger] disk[i],
        end.cursor,
        i as u32,
    ) by {
        assert(disk[i] == zeros(4096));
        law_zero_block_is_no_footer(end.cursor, i as u32);
    }
    lemma_scan_none(disk, end, from);
}

/// Law: a record is recovered once it is written, and the records before it still are. Nothing
/// else is: what stood behind the log before has been cleared as far as the next record can reach.
#[verifier::spinoff_prover]
#[verifier::rlimit(40)]
pub proof fn law_write_is_recovered(disk: Disk, state: State, lba: u32, data: Seq<u8>)
    requires
        state.wf(),
        anchored(disk, state),
        clear_ahead(disk, state),
        state.allows(Work::Record { lba, data }),
    ensures
        ({
            let after = performed(disk, state.record_request(lba, data));
            let new_state = state.appended(lba, data);
            &&& anchored(after, new_state)
            &&& clear_ahead(after, new_state)
        }),
{
    let root = selected(disk)->Ok_0;
    let base = root_on(disk, root);
    let footer = state.new_footer(lba, data);
    let after = performed(disk, state.record_request(lba, data));
    let end = image_of(state, root);
    let new_state = state.appended(lba, data);
    let footer_block = (state.last_footer_block + 2) as u32;
    law_layout_regions_are_adjacent(state.volume_blocks as int);
    lemma_root_wf(disk, root);
    lemma_replay(disk, base);
    law_footer_round_trip(end.cursor, lba, state.new_checksum(lba, data));
    lemma_written_pair(disk, state.last_footer_block + 1, data, footer);
    lemma_same_selection(disk, after, root);
    lemma_replay_frame(disk, after, base);
    assert forall|i: int|
        new_state.last_footer_block < i <= new_state.cleared_to implies #[trigger] after[i]
        == zeros(4096) by {
        assert(after[i] == disk[i]);
    }
    law_operations_keep_the_volume_sound(state, Work::Record { lba, data }, Ok(Seq::empty()));
    lemma_clear_scan(after, new_state, root);
    // The new record is found first, and none follows it.
    assert(after[footer_block as int] == footer);
    assert(scan(after, end, end.cursor.last_footer_block + 2) == Some(footer_block as int));
    let writes = footer_writes(footer, end.cursor, footer_block);
    assert(writes.drop_last() =~= Seq::<RecoveredWrite>::empty());
    assert(physical_after(end.physical, writes) =~= new_state.physical_blocks) by {
        reveal_with_fuel(physical_after, 2);
    }
    assert(checksums_after(end.checksums, writes) =~= new_state.checksums) by {
        reveal_with_fuel(checksums_after, 2);
    }
    assert(end.extended(footer, footer_block) == image_of(new_state, root));
    assert(replayed(after, image_of(new_state, root)) == image_of(new_state, root));
    assert(replayed(after, end) == image_of(new_state, root)) by {
        reveal_with_fuel(replayed_from, 2);
    }
}

/// Law: a write puts `data` at `lba` and leaves every other logical block as it was.
pub proof fn law_write_changes_one_block(disk: Disk, state: State, lba: u32, data: Seq<u8>)
    requires
        state.wf(),
        placed(state),
        disk_wf(disk),
        disk.len() == state.backing_blocks,
        state.allows(Work::Record { lba, data }),
    ensures
        ({
            let after = performed(disk, state.record_request(lba, data));
            let new_state = state.appended(lba, data);
            &&& placed(new_state)
            &&& readable(disk, state) ==> readable(after, new_state)
            &&& content(after, new_state, lba as int) == data
            &&& forall|other: int|
                0 <= other < state.volume_blocks && other != lba ==> #[trigger] content(
                    after,
                    new_state,
                    other,
                ) == content(disk, state, other)
        }),
{
    let footer = state.new_footer(lba, data);
    let root = state.next_checkpoint();
    law_layout_regions_are_adjacent(state.volume_blocks as int);
    law_footer_round_trip(root, lba, state.new_checksum(lba, data));
    lemma_written_pair(disk, state.last_footer_block + 1, data, footer);
    let after = performed(disk, state.record_request(lba, data));
    let new_state = state.appended(lba, data);
    assert forall|other: int|
        0 <= other < new_state.volume_blocks && #[trigger] new_state.physical_blocks[other]
            != 0 implies new_state.layout().log_start <= new_state.physical_blocks[other]
        <= new_state.last_footer_block by {
        if other != lba {
            assert(state.physical_blocks[other] == new_state.physical_blocks[other]);
        }
    }
    if readable(disk, state) {
        assert forall|other: int|
            0 <= other < new_state.volume_blocks && #[trigger] new_state.physical_blocks[other]
                != 0 implies payload_checksum_of(
            new_state.volume_id,
            other as u32,
            new_state.physical_blocks[other],
            after[new_state.physical_blocks[other] as int],
        ) == new_state.checksums[other] by {
            if other != lba {
                assert(state.physical_blocks[other] == new_state.physical_blocks[other]);
            }
        }
    }
    assert forall|other: int| 0 <= other < state.volume_blocks && other != lba implies
        #[trigger] content(after, new_state, other) == content(disk, state, other) by {
        assert(state.physical_blocks[other] == new_state.physical_blocks[other]);
    }
}

/// Law: reading a logical block gives its content.
pub proof fn law_read_gives_the_content(disk: Disk, state: State, lba: u32)
    requires
        state.wf(),
        readable(disk, state),
        state.read_refusal(lba) is None,
        state.physical_blocks[lba as int] != 0,
    ensures
        state.next(Work::Read { lba }, Ok(disk[state.physical_blocks[lba as int] as int])) == (
            state,
            Work::Idle,
            StepView::Data(content(disk, state, lba as int)),
        ),
{
}

/// `disk` after the first `count` requests of a checkpoint.
pub open spec fn during_checkpoint(disk: Disk, state: State, count: int) -> Disk {
    Seq::new(
        disk.len(),
        |i: int|
            if state.body_start() <= i < state.body_start() + state.body_blocks() && i
                - state.body_start() < count - 1 {
                state.body()[i - state.body_start()]
            } else if i == state.next_checkpoint_slot.number() && count > state.body_blocks() + 2 {
                descriptor_block(state.next_checkpoint())
            } else {
                disk[i]
            },
    )
}

/// The next checkpoint of a changed volume is one that its descriptor can describe.
proof fn lemma_next_checkpoint(state: State)
    requires
        state.wf(),
        state.checkpoint_lsn < state.last_lsn,
    ensures
        state.next_checkpoint().coherent(),
        descriptor_block(state.next_checkpoint()).len() == 4096,
{
    law_descriptor_round_trip(state.next_checkpoint());
}

/// What carrying out one more request of a checkpoint leaves on the disk.
pub proof fn lemma_during_checkpoint_step(disk: Disk, state: State, count: int)
    requires
        state.wf(),
        state.checkpoint_lsn < state.last_lsn,
        disk.len() == state.backing_blocks,
        0 <= count < state.checkpoint_len(),
    ensures
        performed(during_checkpoint(disk, state, count), state.checkpoint_request(count))
            == during_checkpoint(disk, state, count + 1),
{
    law_layout_regions_are_adjacent(state.volume_blocks as int);
    let before = during_checkpoint(disk, state, count);
    let after = during_checkpoint(disk, state, count + 1);
    let start = state.body_start();
    if 1 <= count <= state.body_blocks() {
        let block = state.body()[count - 1];
        assert(block.len() == 4096) by {
            law_body_round_trip(state.physical_blocks, state.checksums);
        }
        lemma_written_block(before, start + count - 1, block);
        assert(before.update(start + count - 1, block) =~= after);
    } else if count == state.body_blocks() + 2 {
        let block = descriptor_block(state.next_checkpoint());
        let at = state.next_checkpoint_slot.number() as int;
        lemma_next_checkpoint(state);
        lemma_written_block(before, at, block);
        assert(before.update(at, block) =~= after);
    } else {
        assert(before =~= after);
    }
}

/// What carrying out the first requests of a checkpoint leaves on the disk.
pub proof fn lemma_during_checkpoint(disk: Disk, state: State, count: int)
    requires
        state.wf(),
        state.checkpoint_lsn < state.last_lsn,
        disk.len() == state.backing_blocks,
        0 <= count <= state.checkpoint_len(),
    ensures
        performed_all(disk, state.checkpoint_requests().take(count)) == during_checkpoint(
            disk,
            state,
            count,
        ),
    decreases count,
{
    let requests = state.checkpoint_requests();
    if count == 0 {
        law_layout_regions_are_adjacent(state.volume_blocks as int);
        assert(during_checkpoint(disk, state, 0) =~= disk);
    } else {
        lemma_during_checkpoint(disk, state, count - 1);
        lemma_during_checkpoint_step(disk, state, count - 1);
        assert(requests.take(count).drop_last() =~= requests.take(count - 1));
        assert(requests.take(count).last() == state.checkpoint_request(count - 1));
    }
}

/// Blocks of a backing keep their size during a checkpoint.
pub proof fn lemma_during_checkpoint_wf(disk: Disk, state: State, count: int)
    requires
        state.wf(),
        state.checkpoint_lsn < state.last_lsn,
        backing_wf(disk),
    ensures
        backing_wf(during_checkpoint(disk, state, count)),
{
    law_body_round_trip(state.physical_blocks, state.checksums);
    lemma_next_checkpoint(state);
    let after = during_checkpoint(disk, state, count);
    assert forall|i: int| 0 <= i < after.len() implies (#[trigger] after[i]).len() == 4096 by {
        let at = i - state.body_start();
        if 0 <= at < state.body_blocks() {
            assert(state.body()[at].len() == 4096);
        }
        assert(disk[i].len() == 4096);
    }
}

/// Whether block `i` belongs to the slot of the next checkpoint.
pub open spec fn spare(state: State, i: int) -> bool {
    ||| i == state.next_checkpoint_slot.number()
    ||| state.body_start() <= i < state.body_start() + state.body_blocks()
}

/// Whether opening `after` passes over the slot of the next checkpoint: that slot cannot be
/// read, holds an older checkpoint of the volume, or one whose body is damaged, or its descriptor
/// is still the one that opening `disk` ranks behind.
pub open spec fn passed_over(disk: Disk, after: Disk, state: State) -> bool {
    let slot = state.next_checkpoint_slot;
    ||| checkpoint_on(after, slot) is None
    ||| {
        &&& checkpoint_on(after, slot) matches Some(found)
        &&& found.volume_id == state.volume_id
        &&& found.volume_blocks == state.volume_blocks
        &&& found.checkpoint_lsn < state.checkpoint_lsn || (found.checkpoint_lsn
            > state.checkpoint_lsn && !intact(after, found))
    }
    ||| {
        &&& after[slot.number() as int] == disk[slot.number() as int]
        &&& newest(disk) matches Some(found) && found.slot == slot.other()
    }
}

/// The checkpoint from which opening starts stands in its own slot, and its body is intact.
pub proof fn lemma_selected(disk: Disk, root: Checkpoint)
    requires
        selected(disk) == Ok::<Checkpoint, StorageError>(root),
    ensures
        checkpoint_on(disk, root.slot) == Some(root),
        intact(disk, root),
        root.coherent(),
        root.backing_blocks == (4096 * disk.len()) as u64 / 4096,
{
}

/// Law: whatever becomes of the slot of the next checkpoint, whether its writes are lost, torn or
/// reordered or it is damaged later, the backing holds the volume by its last checkpoint as long
/// as that slot is passed over.
#[verifier::spinoff_prover]
#[verifier::rlimit(40)]
pub proof fn law_spare_slot_can_be_lost(disk: Disk, after: Disk, state: State)
    requires
        state.wf(),
        anchored(disk, state),
        backing_wf(after),
        after.len() == disk.len(),
        forall|i: int| 0 <= i < disk.len() && !spare(state, i) ==> disk[i] == #[trigger] after[i],
        passed_over(disk, after, state),
    ensures
        anchored(after, state),
{
    let root = selected(disk)->Ok_0;
    let base = root_on(disk, root);
    let slot = state.next_checkpoint_slot;
    law_layout_regions_are_adjacent(state.volume_blocks as int);
    lemma_selected(disk, root);
    lemma_root_wf(disk, root);
    lemma_replay(disk, base);
    assert(!spare(state, slot.other().number() as int));
    assert(after[slot.other().number() as int] == disk[slot.other().number() as int]);
    assert(checkpoint_on(after, slot.other()) == Some(root));
    assert(body_on(after, root) =~= body_on(disk, root)) by {
        assert forall|i: int|
            root.body_start() <= i < root.body_start() + root.body_blocks() implies disk[i]
            == #[trigger] after[i] by {
            assert(!spare(state, i));
        }
    }
    assert(intact(after, root));
    assert(selected(after) == Ok::<Checkpoint, StorageError>(root));
    assert forall|i: int| state.layout().log_start <= i < disk.len() implies disk[i]
        == #[trigger] after[i] by {
        assert(!spare(state, i));
    }
    lemma_replay_frame(disk, after, base);
    let end = image_of(state, root);
    lemma_same_scan(disk, after, end);
    assert(replayed(after, end) == end);
}

/// Before the descriptor of a checkpoint is written, the disk still holds the volume by its
/// last checkpoint.
proof fn lemma_checkpoint_body_keeps_anchor(disk: Disk, state: State, count: int)
    requires
        state.wf(),
        anchored(disk, state),
        state.checkpoint_lsn < state.last_lsn,
        0 <= count <= state.body_blocks() + 2,
        passed_over(disk, during_checkpoint(disk, state, count), state),
    ensures
        anchored(during_checkpoint(disk, state, count), state),
{
    lemma_during_checkpoint_wf(disk, state, count);
    law_spare_slot_can_be_lost(disk, during_checkpoint(disk, state, count), state);
}

/// Where two disks agree behind the end of replay and none of them continues it, neither does
/// the other.
proof fn lemma_same_scan(left: Disk, right: Disk, end: Recovered)
    requires
        scan(left, end, end.cursor.last_footer_block + 2) is None,
        forall|i: int| end.cursor.last_footer_block < i < end.cursor.backing_blocks ==> left[i]
            == #[trigger] right[i],
    ensures
        scan(right, end, end.cursor.last_footer_block + 2) is None,
{
    let from = end.cursor.last_footer_block + 2;
    lemma_scan(left, end, from);
    assert forall|i: int| from <= i <= end.footer_limit() implies !valid_footer(
        #[trigger] right[i],
        end.cursor,
        i as u32,
    ) by {
        assert(left[i] == right[i]);
        assert(!valid_footer(left[i], end.cursor, i as u32));
    }
    lemma_scan_none(right, end, from);
}

/// Once the descriptor of a checkpoint is written, the disk holds the volume by that
/// checkpoint.
proof fn lemma_checkpoint_descriptor_moves_anchor(disk: Disk, state: State, count: int)
    requires
        state.wf(),
        anchored(disk, state),
        state.checkpoint_lsn < state.last_lsn,
        state.body_blocks() + 2 < count <= state.checkpoint_len(),
    ensures
        anchored(during_checkpoint(disk, state, count), state.published()),
{
    let root = selected(disk)->Ok_0;
    let after = during_checkpoint(disk, state, count);
    let checkpoint = state.next_checkpoint();
    let slot = state.next_checkpoint_slot;
    law_layout_regions_are_adjacent(state.volume_blocks as int);
    lemma_during_checkpoint_wf(disk, state, count);
    lemma_next_checkpoint(state);
    lemma_selected(disk, root);
    law_descriptor_round_trip(checkpoint);
    assert(after[slot.number() as int] == descriptor_block(checkpoint));
    assert(after[slot.other().number() as int] == disk[slot.other().number() as int]);
    assert(checkpoint_on(after, slot) == Some(checkpoint));
    assert(checkpoint_on(after, slot.other()) == checkpoint_on(disk, slot.other()));
    assert(checkpoint_on(disk, slot.other()) == Some(root));
    assert(newest(after) == Some(checkpoint));
    assert(body_on(after, checkpoint) =~= state.body());
    law_body_round_trip(state.physical_blocks, state.checksums);
    let base = root_on(after, checkpoint);
    assert(base == image_of(state.published(), checkpoint));
    lemma_root_wf(disk, root);
    lemma_replay(disk, root_on(disk, root));
    let end = image_of(state, root);
    lemma_scan(disk, end, end.cursor.last_footer_block + 2);
    assert forall|i: int|
        base.cursor.last_footer_block + 2 <= i <= base.footer_limit() implies !valid_footer(
        #[trigger] after[i],
        base.cursor,
        i as u32,
    ) by {
        assert(after[i] == disk[i]);
        assert(!valid_footer(disk[i], end.cursor, i as u32));
    }
    lemma_scan_none(after, base, base.cursor.last_footer_block + 2);
}

/// Law: whichever requests of a checkpoint have been carried out, the backing holds the
/// volume: by the last checkpoint as long as the new descriptor has not been written, by the
/// new checkpoint from then on. So a checkpoint that is cut short loses nothing. Where the volume
/// was opened by the older checkpoint because the newer one is damaged, this leaves out the moment
/// at which the new body happens to fit the old descriptor.
#[verifier::spinoff_prover]
#[verifier::rlimit(40)]
pub proof fn law_checkpoint_can_be_cut_short(disk: Disk, state: State, count: int)
    requires
        state.wf(),
        anchored(disk, state),
        state.checkpoint_lsn < state.last_lsn,
        0 <= count <= state.checkpoint_len(),
        newest(disk) == Some(selected(disk)->Ok_0) || count > state.body_blocks() + 2
            || passed_over(
            disk,
            performed_all(disk, state.checkpoint_requests().take(count)),
            state,
        ),
    ensures
        ({
            let after = performed_all(disk, state.checkpoint_requests().take(count));
            anchored(
                after,
                if count <= state.body_blocks() + 2 {
                    state
                } else {
                    state.published()
                },
            )
        }),
{
    lemma_during_checkpoint(disk, state, count);
    if count <= state.body_blocks() + 2 {
        law_layout_regions_are_adjacent(state.volume_blocks as int);
        lemma_selected(disk, selected(disk)->Ok_0);
        lemma_checkpoint_body_keeps_anchor(disk, state, count);
    } else {
        lemma_checkpoint_descriptor_moves_anchor(disk, state, count);
    }
}

/// Law: no request of a checkpoint changes what a logical block holds.
#[verifier::spinoff_prover]
#[verifier::rlimit(40)]
pub proof fn law_checkpoint_keeps_the_content(disk: Disk, state: State, count: int)
    requires
        state.wf(),
        placed(state),
        backing_wf(disk),
        disk.len() == state.backing_blocks,
        state.checkpoint_lsn < state.last_lsn,
        0 <= count <= state.checkpoint_len(),
    ensures
        ({
            let after = performed_all(disk, state.checkpoint_requests().take(count));
            &&& readable(disk, state) ==> readable(after, state)
            &&& forall|lba: int|
                0 <= lba < state.volume_blocks ==> #[trigger] content(after, state, lba)
                    == content(disk, state, lba)
        }),
{
    lemma_during_checkpoint(disk, state, count);
    lemma_during_checkpoint_wf(disk, state, count);
    law_layout_regions_are_adjacent(state.volume_blocks as int);
    let after = during_checkpoint(disk, state, count);
    assert forall|lba: int|
        0 <= lba < state.volume_blocks && #[trigger] state.physical_blocks[lba] != 0 implies after[
        state.physical_blocks[lba] as int
    ] == disk[state.physical_blocks[lba] as int] by {}
}

/// `disk` after `count` blocks behind `recovered` were cleared.
pub open spec fn cleared(disk: Disk, recovered: Recovered, count: int) -> Disk {
    Seq::new(
        disk.len(),
        |i: int|
            if recovered.cursor.last_footer_block < i <= recovered.cursor.last_footer_block
                + count {
                zeros(4096)
            } else {
                disk[i]
            },
    )
}

/// Law: clearing any of the blocks behind the log changes nothing that opening finds, and
/// clearing them all leaves the same backing, so that opening can be cut short at any request,
/// whichever of its writes survive, and repeated. A block may even be torn, as long as what is
/// left of it does not pass for the next footer.
#[verifier::spinoff_prover]
#[verifier::rlimit(40)]
pub proof fn law_clearing_keeps_what_is_recovered(disk: Disk, after: Disk)
    requires
        backing_wf(disk),
        recovered_from(disk) is Ok,
        after.len() == disk.len(),
        ({
            let end = recovered_from(disk)->Ok_0;
            let last = end.cursor.last_footer_block;
            forall|i: int|
                0 <= i < disk.len() ==> {
                    ||| #[trigger] after[i] == disk[i]
                    ||| {
                        &&& last < i <= last + end.clear_blocks()
                        &&& after[i].len() == 4096
                        &&& !valid_footer(after[i], end.cursor, i as u32)
                    }
                }
        }),
    ensures
        backing_wf(after),
        recovered_from(after) == recovered_from(disk),
        ({
            let end = recovered_from(disk)->Ok_0;
            cleared(after, end, end.clear_blocks()) == cleared(disk, end, end.clear_blocks())
        }),
{
    let end = recovered_from(disk)->Ok_0;
    let root = selected(disk)->Ok_0;
    let base = root_on(disk, root);
    assert forall|i: int| 0 <= i < after.len() implies (#[trigger] after[i]).len() == 4096 by {
        assert(disk[i].len() == 4096);
    }
    lemma_root_wf(disk, root);
    lemma_replay(disk, base);
    assert forall|i: int| 0 <= i < root.layout.log_start implies disk[i] == #[trigger] after[i] by {
    }
    lemma_same_selection(disk, after, root);
    assert forall|i: int|
        base.cursor.last_footer_block < i <= end.cursor.last_footer_block implies disk[i]
        == #[trigger] after[i] by {}
    lemma_replay_frame(disk, after, base);
    lemma_cleared_scan(disk, end, after);
    assert(replayed(after, end) == end);
    assert(cleared(after, end, end.clear_blocks()) =~= cleared(disk, end, end.clear_blocks()));
}

/// No record follows where blocks were cleared and none followed before.
proof fn lemma_cleared_scan(disk: Disk, end: Recovered, after: Disk)
    requires
        end.wf(),
        disk.len() == end.cursor.backing_blocks,
        scan(disk, end, end.cursor.last_footer_block + 2) is None,
        forall|i: int|
            0 <= i < disk.len() ==> #[trigger] after[i] == disk[i] || !valid_footer(
                after[i],
                end.cursor,
                i as u32,
            ),
    ensures
        scan(after, end, end.cursor.last_footer_block + 2) is None,
{
    let from = end.cursor.last_footer_block + 2;
    lemma_scan(disk, end, from);
    assert forall|i: int| from <= i <= end.footer_limit() implies !valid_footer(
        #[trigger] after[i],
        end.cursor,
        i as u32,
    ) by {
        assert(!valid_footer(disk[i], end.cursor, i as u32));
    }
    lemma_scan_none(after, end, from);
}

/// Law: what stands behind the cleared blocks does not matter: whatever it is, the backing holds
/// the volume.
#[verifier::spinoff_prover]
#[verifier::rlimit(40)]
pub proof fn law_what_lies_behind_does_not_matter(disk: Disk, after: Disk, state: State)
    requires
        state.wf(),
        anchored(disk, state),
        clear_ahead(disk, state),
        disk_wf(after),
        after.len() == disk.len(),
        forall|i: int| 0 <= i <= state.cleared_to ==> disk[i] == #[trigger] after[i],
    ensures
        anchored(after, state),
        clear_ahead(after, state),
        newest(after) == newest(disk),
        selected(after) == selected(disk),
{
    let root = selected(disk)->Ok_0;
    let base = root_on(disk, root);
    law_layout_regions_are_adjacent(state.volume_blocks as int);
    lemma_root_wf(disk, root);
    lemma_replay(disk, base);
    lemma_same_selection(disk, after, root);
    lemma_replay_frame(disk, after, base);
    assert forall|i: int| state.last_footer_block < i <= state.cleared_to implies
        #[trigger] after[i] == zeros(4096) by {
        assert(disk[i] == zeros(4096));
    }
    lemma_clear_scan(after, state, root);
    let end = image_of(state, root);
    assert(replayed(after, end) == end);
}

/// `disk` after the first `count` requests of clearing.
pub open spec fn during_clearing(disk: Disk, state: State, count: int) -> Disk {
    Seq::new(
        disk.len(),
        |i: int|
            if state.cleared_to < i <= state.cleared_to + count && i <= state.cleared_to
                + state.clear_len() {
                zeros(4096)
            } else {
                disk[i]
            },
    )
}

/// What carrying out the first requests of clearing leaves on the disk.
proof fn lemma_during_clearing(disk: Disk, state: State, count: int)
    requires
        state.wf(),
        disk.len() == state.backing_blocks,
        0 <= count <= state.clear_len() + 1,
    ensures
        performed_all(disk, state.clear_requests().take(count)) == during_clearing(
            disk,
            state,
            count,
        ),
        count <= state.clear_len() ==> performed(
            during_clearing(disk, state, count),
            state.clear_request(count),
        ) == during_clearing(disk, state, count + 1),
    decreases count,
{
    let requests = state.clear_requests();
    let there = during_clearing(disk, state, count);
    if count == 0 {
        assert(there =~= disk);
    } else {
        lemma_during_clearing(disk, state, count - 1);
        assert(requests.take(count).drop_last() =~= requests.take(count - 1));
        assert(requests.take(count).last() == state.clear_request(count - 1));
    }
    if count < state.clear_len() {
        lemma_written_block(there, state.cleared_to + 1 + count, zeros(4096));
        assert(there.update(state.cleared_to + 1 + count, zeros(4096)) =~= during_clearing(
            disk,
            state,
            count + 1,
        ));
    } else {
        assert(there =~= during_clearing(disk, state, count + 1));
    }
}

/// Law: clearing what stands behind the log, however far it gets, changes nothing that opening
/// finds and nothing that can be read, and when it is done the blocks hold zeros that much
/// further.
#[verifier::spinoff_prover]
#[verifier::rlimit(40)]
pub proof fn law_clearing_ahead_keeps_the_volume(disk: Disk, state: State, count: int)
    requires
        state.wf(),
        anchored(disk, state),
        clear_ahead(disk, state),
        0 <= count <= state.clear_len() + 1,
    ensures
        ({
            let after = performed_all(disk, state.clear_requests().take(count));
            &&& anchored(after, state)
            &&& clear_ahead(after, state)
            &&& newest(after) == newest(disk)
            &&& selected(after) == selected(disk)
            &&& forall|i: int| 0 <= i <= state.cleared_to ==> #[trigger] after[i] == disk[i]
            &&& count >= state.clear_len() ==> clear_ahead(after, state.cleared())
                && anchored(after, state.cleared())
        }),
{
    lemma_during_clearing(disk, state, count);
    let after = during_clearing(disk, state, count);
    assert forall|i: int| 0 <= i < after.len() implies (#[trigger] after[i]).len() == 4096 by {
        assert(disk[i].len() == 4096);
    }
    law_what_lies_behind_does_not_matter(disk, after, state);
    if count >= state.clear_len() {
        let done = state.cleared();
        assert forall|i: int| done.last_footer_block < i <= done.cleared_to implies
            #[trigger] after[i] == zeros(4096) by {
            assert(i <= state.cleared_to ==> disk[i] == zeros(4096));
        }
        let root = selected(disk)->Ok_0;
        assert(image_of(done, root) == image_of(state, root));
    }
}

/// Law: a volume that was opened is held by its backing, with nothing behind its log as far as
/// the next record can reach.
#[verifier::spinoff_prover]
#[verifier::rlimit(40)]
pub proof fn law_opened_volume_is_anchored(disk: Disk, options: VolumeOpenOptions)
    requires
        backing_wf(disk),
        recovered_from(disk) is Ok,
    ensures
        ({
            let found = recovered_from(disk)->Ok_0;
            let after = cleared(disk, found, found.clear_blocks());
            &&& anchored(after, found.state(options))
            &&& clear_ahead(after, found.state(options))
            &&& newest(after) == newest(disk)
            &&& selected(after) == selected(disk)
            &&& options.valid() ==> found.state(options).wf()
        }),
{
    let found = recovered_from(disk)->Ok_0;
    let root = selected(disk)->Ok_0;
    lemma_root_wf(disk, root);
    lemma_replay(disk, root_on(disk, root));
    let after = cleared(disk, found, found.clear_blocks());
    law_layout_regions_are_adjacent(root.volume_blocks as int);
    assert forall|i: int| 0 <= i < disk.len() && #[trigger] after[i] != disk[i] implies {
        &&& after[i].len() == 4096
        &&& !valid_footer(after[i], found.cursor, i as u32)
    } by {
        law_zero_block_is_no_footer(found.cursor, i as u32);
    }
    law_clearing_keeps_what_is_recovered(disk, after);
    assert forall|i: int| 0 <= i < root.layout.log_start implies disk[i] == #[trigger] after[i] by {
    }
    lemma_same_selection(disk, after, root);
    assert(disk_wf(after)) by {
        assert forall|i: int| 0 <= i < after.len() implies (#[trigger] after[i]).len() == 4096 by {
            assert(disk[i].len() == 4096);
        }
    }
    assert(replayed(after, root_on(after, root)) == found);
    assert(found.root == root);
    assert(image_of(found.state(options), root) == found);
}

/// Law: formatting makes an empty volume, unless a valid footer for its identity already
/// stands at the start of the log.
#[verifier::spinoff_prover]
#[verifier::rlimit(40)]
pub proof fn law_format_makes_an_empty_volume(
    disk: Disk,
    volume_id: u64,
    volume_blocks: u32,
    options: VolumeOpenOptions,
)
    requires
        backing_wf(disk),
        valid_volume_blocks(volume_blocks as int),
        layout_of(volume_blocks as int).log_start + 2 <= disk.len(),
        ({
            let root = initial_checkpoint(
                CheckpointSlot::Green,
                volume_id,
                volume_blocks,
                disk.len() as u64,
            );
            !record_follows(disk, root_on(disk, root))
        }),
    ensures
        ({
            let after = performed_all(
                disk,
                format_requests(volume_id, volume_blocks, disk.len() as u64),
            );
            let root = initial_checkpoint(
                CheckpointSlot::Green,
                volume_id,
                volume_blocks,
                disk.len() as u64,
            );
            let empty = root_on(disk, root);
            &&& forall|i: int| 2 <= i < disk.len() ==> #[trigger] after[i] == disk[i]
            &&& newest(after) == Some(root)
            &&& selected(after) == Ok::<Checkpoint, StorageError>(root)
            &&& checkpoint_on(after, CheckpointSlot::Blue) == Some(
                initial_checkpoint(
                    CheckpointSlot::Blue,
                    volume_id,
                    volume_blocks,
                    disk.len() as u64,
                ),
            )
            &&& recovered_from(after) == Ok::<Recovered, StorageError>(empty)
            &&& anchored(after, empty.state(options))
            &&& readable(after, empty.state(options))
            &&& forall|lba: int|
                0 <= lba < volume_blocks ==> #[trigger] content(after, empty.state(options), lba)
                    == zeros(4096)
        }),
{
    let backing_blocks = disk.len() as u64;
    let green = initial_checkpoint(CheckpointSlot::Green, volume_id, volume_blocks, backing_blocks);
    let blue = initial_checkpoint(CheckpointSlot::Blue, volume_id, volume_blocks, backing_blocks);
    let requests = format_requests(volume_id, volume_blocks, backing_blocks);
    law_layout_regions_are_adjacent(volume_blocks as int);
    law_descriptor_round_trip(green);
    law_descriptor_round_trip(blue);
    lemma_written_pair(disk, 0, descriptor_block(green), descriptor_block(blue));
    let after = performed(disk, requests[0]);
    assert(performed_all(disk, requests) == after) by {
        reveal_with_fuel(performed_all, 3);
        assert(requests.drop_last().drop_last() =~= Seq::<Req>::empty());
        assert(requests.drop_last().last() == requests[0]);
        assert(requests.last() == requests[1]);
    }
    assert(checkpoint_on(after, CheckpointSlot::Green) == Some(green));
    assert(checkpoint_on(after, CheckpointSlot::Blue) == Some(blue));
    let empty = root_on(disk, green);
    assert(root_on(after, green) == empty);
    lemma_same_scan(disk, after, empty);
    assert(replayed(after, empty) == empty);
}

/// Law: a volume that has failed refuses every operation.
pub proof fn law_failed_volume_refuses_everything(state: State, lba: u32)
    requires
        state.failed,
    ensures
        state.read_refusal(lba) == Some(StorageError::VolumeFailed),
        state.write_refusal(lba) == Some(StorageError::VolumeFailed),
        forall|work: Work| #[trigger] state.allows(work) ==> work is Idle,
{
}

/// Law: a failed request ends the operation, fails the volume, and publishes nothing.
pub proof fn law_failed_request_publishes_nothing(state: State, work: Work, failure: IoFailure)
    ensures
        state.next(work, Err(failure)) == (
            (State { failed: true, ..state }),
            Work::Idle,
            StepView::Failed(StorageError::Io(failure)),
        ),
{
}

/// Law: every operation keeps what holds of a volume.
pub proof fn law_operations_keep_the_volume_sound(
    state: State,
    work: Work,
    reply: Result<Seq<u8>, IoFailure>,
)
    requires
        state.wf(),
        state.allows(work),
    ensures
        state.next(work, reply).0.wf(),
        state.next(work, reply).0.allows(state.next(work, reply).1),
{
    law_layout_regions_are_adjacent(state.volume_blocks as int);
}

/// Law: no operation moves a sequence number back or takes durability away.
pub proof fn law_sequence_numbers_never_go_back(
    state: State,
    work: Work,
    reply: Result<Seq<u8>, IoFailure>,
)
    requires
        state.wf(),
        state.allows(work),
    ensures
        ({
            let after = state.next(work, reply).0;
            &&& state.last_lsn <= after.last_lsn <= state.last_lsn + 1
            &&& state.durable_lsn <= after.durable_lsn
            &&& state.checkpoint_lsn <= after.checkpoint_lsn
            &&& state.last_footer_block <= after.last_footer_block
        }),
{
}

/// Law: a completed write keeps the log within the replay bound.
pub proof fn law_write_keeps_the_replay_bound(state: State, lba: u32, data: Seq<u8>)
    requires
        state.wf(),
        state.allows(Work::Record { lba, data }),
    ensures
        state.next(Work::Record { lba, data }, Ok(Seq::empty())).0.log_bytes_since_checkpoint
            <= state.checkpoint_after_bytes,
{
}

/// Law: records are chained without a gap: each footer names the footer before it, stands two
/// blocks behind it, and carries the next sequence number.
pub proof fn law_records_are_contiguous(state: State, lba: u32, data: Seq<u8>)
    requires
        state.wf(),
        state.allows(Work::Record { lba, data }),
    ensures
        ({
            let after = state.appended(lba, data);
            let footer = state.new_footer(lba, data);
            &&& after.last_footer_block == state.last_footer_block + 2
            &&& after.last_lsn == state.last_lsn + 1
            &&& u64_at(footer, 16) == after.last_lsn
            &&& u32_at(footer, 24) == state.last_footer_block
            &&& u32_at(footer, 28) == after.last_footer_block
        }),
{
    let cursor = Checkpoint {
        checkpoint_lsn: state.last_lsn,
        last_footer_block: state.last_footer_block,
        ..state.next_checkpoint()
    };
    law_footer_round_trip(cursor, lba, state.new_checksum(lba, data));
}

/// Where an operation has come when `count` of its requests succeeded.
pub open spec fn after_successes(state: State, work: Work, count: nat) -> (State, Work, StepView)
    decreases count,
{
    if count == 0 {
        (state, work, StepView::Perform(state.outstanding(work)))
    } else {
        let before = after_successes(state, work, (count - 1) as nat);
        before.0.next(before.1, Ok(Seq::empty()))
    }
}

/// A checkpoint hands out its requests in order.
proof fn lemma_checkpoint_in_progress(
    state: State,
    write: Option<(u32, Seq<u8>)>,
    count: nat,
)
    requires
        state.wf(),
        count < state.checkpoint_len(),
    ensures
        ({
            let there = after_successes(state, Work::Checkpoint { position: 0, write }, count);
            &&& there.0 == (if count == 0 {
                state
            } else {
                state.flushed()
            })
            &&& there.1 == Work::Checkpoint { position: count as int, write }
            &&& there.2 == StepView::Perform(state.checkpoint_request(count as int))
        }),
    decreases count,
{
    law_layout_regions_are_adjacent(state.volume_blocks as int);
    if count > 0 {
        lemma_checkpoint_in_progress(state, write, (count - 1) as nat);
        let before = if count == 1 {
            state
        } else {
            state.flushed()
        };
        assert(before.checkpoint_request(count as int) == state.checkpoint_request(count as int));
        assert(before.checkpoint_len() == state.checkpoint_len());
    }
}

/// Law: a checkpoint whose requests all succeed hands them out in order and publishes the
/// mapping.
pub proof fn law_checkpoint_runs_to_publication(state: State)
    requires
        state.wf(),
        !state.failed,
    ensures
        after_successes(
            state,
            Work::Checkpoint { position: 0, write: None },
            state.checkpoint_len() as nat,
        ) == (state.published(), Work::Idle, StepView::Done),
        forall|count: int|
            0 <= count < state.checkpoint_len() ==> (#[trigger] after_successes(
                state,
                Work::Checkpoint { position: 0, write: None },
                count as nat,
            )).2 == StepView::Perform(state.checkpoint_requests()[count]),
{
    law_layout_regions_are_adjacent(state.volume_blocks as int);
    let last = (state.checkpoint_len() - 1) as nat;
    lemma_checkpoint_in_progress(state, None, last);
    assert forall|count: int| 0 <= count < state.checkpoint_len() implies (
    #[trigger] after_successes(
        state,
        Work::Checkpoint { position: 0, write: None },
        count as nat,
    )).2 == StepView::Perform(state.checkpoint_requests()[count]) by {
        lemma_checkpoint_in_progress(state, None, count as nat);
    }
}

/// An operation that has come some way goes on from there.
proof fn lemma_after_more_successes(state: State, work: Work, first: nat, more: nat)
    requires
        ({
            let there = after_successes(state, work, first);
            there.2 == StepView::Perform(there.0.outstanding(there.1))
        }),
    ensures
        ({
            let there = after_successes(state, work, first);
            after_successes(state, work, first + more) == after_successes(there.0, there.1, more)
        }),
    decreases more,
{
    if more > 0 {
        lemma_after_more_successes(state, work, first, (more - 1) as nat);
    }
}

/// Clearing hands out its requests in order.
proof fn lemma_clearing_in_progress(state: State, lba: u32, data: Seq<u8>, count: nat)
    requires
        state.wf(),
        count <= state.clear_len(),
    ensures
        after_successes(state, Work::Clear { position: 0, lba, data }, count) == (
            state,
            Work::Clear { position: count as int, lba, data },
            StepView::Perform(state.clear_request(count as int)),
        ),
    decreases count,
{
    if count > 0 {
        lemma_clearing_in_progress(state, lba, data, (count - 1) as nat);
    }
}

/// The requests of a write that needs no checkpoint.
pub open spec fn append_requests(state: State, lba: u32, data: Seq<u8>) -> Seq<Req> {
    if state.needs_clearing() {
        state.clear_requests().push(state.cleared().record_request(lba, data))
    } else {
        seq![state.record_request(lba, data)]
    }
}

/// The volume after a write that needs no checkpoint.
pub open spec fn after_append(state: State, lba: u32, data: Seq<u8>) -> State {
    if state.needs_clearing() {
        state.cleared().appended(lba, data)
    } else {
        state.appended(lba, data)
    }
}

/// The requests of a write that all succeed: those of a checkpoint where the replay bound asks for
/// one, those of clearing where the record would bring blocks within reach that were not cleared,
/// then the record.
pub open spec fn write_requests(state: State, lba: u32, data: Seq<u8>) -> Seq<Req> {
    if state.needs_checkpoint() {
        state.checkpoint_requests() + append_requests(state.published(), lba, data)
    } else {
        append_requests(state, lba, data)
    }
}

/// The volume after a write.
pub open spec fn after_write(state: State, lba: u32, data: Seq<u8>) -> State {
    if state.needs_checkpoint() {
        after_append(state.published(), lba, data)
    } else {
        after_append(state, lba, data)
    }
}

/// A write that needs no checkpoint is published, after clearing exactly where it is needed.
proof fn lemma_append_runs_to_publication(state: State, lba: u32, data: Seq<u8>, count: nat)
    requires
        state.wf(),
        count <= append_requests(state, lba, data).len(),
    ensures
        ({
            let there = after_successes(state, state.append_work(lba, data), count);
            if count == append_requests(state, lba, data).len() {
                there == (after_append(state, lba, data), Work::Idle, StepView::Done)
            } else {
                there.2 == StepView::Perform(append_requests(state, lba, data)[count as int])
            }
        }),
{
    let work = state.append_work(lba, data);
    let nothing = Ok::<Seq<u8>, IoFailure>(Seq::empty());
    if state.needs_clearing() {
        let last = state.clear_len() as nat;
        if count <= last {
            lemma_clearing_in_progress(state, lba, data, count);
        } else {
            lemma_clearing_in_progress(state, lba, data, last);
            let cleared = after_successes(state, work, last + 1);
            assert(cleared == state.next(
                Work::Clear { position: last as int, lba, data },
                nothing,
            ));
            if count > last + 1 {
                assert(after_successes(state, work, last + 2) == cleared.0.next(
                    cleared.1,
                    nothing,
                ));
            }
        }
    } else if count > 0 {
        assert(after_successes(state, work, 0).0 == state);
        assert(after_successes(state, work, 1) == state.next(work, nothing));
    }
}

/// A write hands out its requests in order and is then published.
#[verifier::spinoff_prover]
#[verifier::rlimit(40)]
proof fn lemma_write_in_progress(state: State, lba: u32, data: Seq<u8>, count: nat)
    requires
        state.wf(),
        state.write_refusal(lba) is None,
        data.len() == 4096,
        count <= write_requests(state, lba, data).len(),
    ensures
        ({
            let there = after_successes(state, state.write_work(lba, data), count);
            if count == write_requests(state, lba, data).len() {
                there == (after_write(state, lba, data), Work::Idle, StepView::Done)
            } else {
                there.2 == StepView::Perform(write_requests(state, lba, data)[count as int])
            }
        }),
{
    let work = state.write_work(lba, data);
    law_layout_regions_are_adjacent(state.volume_blocks as int);
    if state.needs_checkpoint() {
        let first = state.checkpoint_len() as nat;
        if count < first {
            lemma_checkpoint_in_progress(state, Some((lba, data)), count);
        } else {
            let done = state.published();
            let more = (count - first) as nat;
            lemma_checkpoint_in_progress(state, Some((lba, data)), (first - 1) as nat);
            let before = after_successes(state, work, (first - 1) as nat);
            let there = after_successes(state, work, first);
            assert(there == before.0.next(before.1, Ok(Seq::empty())));
            assert(there.0 == done && there.1 == done.append_work(lba, data));
            lemma_after_more_successes(state, work, first, more);
            lemma_append_runs_to_publication(done, lba, data, more);
        }
    } else {
        lemma_append_runs_to_publication(state, lba, data, count);
    }
}

/// Law: a write whose requests all succeed is published, after a checkpoint exactly where the
/// replay bound asks for one, and after clearing exactly where the record would bring blocks
/// within reach that were not cleared.
pub proof fn law_write_runs_to_publication(state: State, lba: u32, data: Seq<u8>)
    requires
        state.wf(),
        state.write_refusal(lba) is None,
        data.len() == 4096,
    ensures
        after_successes(
            state,
            state.write_work(lba, data),
            write_requests(state, lba, data).len(),
        ) == (after_write(state, lba, data), Work::Idle, StepView::Done),
        forall|count: int|
            0 <= count < write_requests(state, lba, data).len() ==> (#[trigger] after_successes(
                state,
                state.write_work(lba, data),
                count as nat,
            )).2 == StepView::Perform(write_requests(state, lba, data)[count]),
{
    let work = state.write_work(lba, data);
    let requests = write_requests(state, lba, data);
    lemma_write_in_progress(state, lba, data, requests.len());
    assert forall|count: int| 0 <= count < requests.len() implies (#[trigger] after_successes(
        state,
        work,
        count as nat,
    )).2 == StepView::Perform(requests[count]) by {
        lemma_write_in_progress(state, lba, data, count as nat);
    }
}

} // verus!
