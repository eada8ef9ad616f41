//! What the older of the two checkpoints is kept for.

#[allow(unused_imports)]
use crate::bytes::zeros;
#[allow(unused_imports)]
use crate::crash::{after_writes, law_formatted_volume_is_sound, lemma_after_writes, sound};
#[allow(unused_imports)]
use crate::descriptor::{Checkpoint, CheckpointSlot};
#[allow(unused_imports)]
use crate::device::{disk_wf, performed_all, Disk};
#[allow(unused_imports)]
use crate::durability::{
    anchored, cleared, content, during_checkpoint, image_of, law_format_makes_an_empty_volume,
    law_recovery_gives_back_the_volume, lemma_clear_scan, lemma_during_checkpoint, lemma_selected,
    placed, readable, record_follows,
};
#[allow(unused_imports)]
use crate::error::StorageError;
#[allow(unused_imports)]
use crate::footer::{footer_writes, valid_footer};
#[allow(unused_imports)]
use crate::history::{
    law_crash_keeps_a_prefix_of_all_writes, law_every_event_keeps_what_holds, lemma_crash_logged,
    lemma_logged, Event, Run,
};
#[allow(unused_imports)]
use crate::layout::{law_layout_regions_are_adjacent, layout_of, valid_volume_blocks};
#[allow(unused_imports)]
use crate::recovery::{format_requests, initial_checkpoint, Recovered};
#[allow(unused_imports)]
use crate::replay::{
    backing_wf, body_on, checkpoint_on, intact, lemma_extended_wf, lemma_replay, lemma_replay_frame,
    lemma_scan, recovered_from, replayed, root_on, scan, selected,
};
#[allow(unused_imports)]
use crate::volume::{State, VolumeOpenOptions};
use vstd::prelude::*;

verus! {

/// The volume as it is known by its older checkpoint.
pub open spec fn seen_from(state: State, older: Checkpoint) -> State {
    State {
        checkpoint_lsn: older.checkpoint_lsn,
        log_bytes_since_checkpoint: (4096 * (state.last_footer_block - older.last_footer_block))
            as u64,
        next_checkpoint_slot: older.slot.other(),
        ..state
    }
}

/// Whether the slot of the next checkpoint holds another checkpoint from which replay leads to
/// the volume too.
pub open spec fn backed_up(disk: Disk, state: State) -> bool {
    &&& checkpoint_on(disk, state.next_checkpoint_slot) matches Some(older)
    &&& older.volume_id == state.volume_id
    &&& older.volume_blocks == state.volume_blocks
    &&& older.backing_blocks == state.backing_blocks
    &&& older.last_footer_block <= state.last_footer_block
    &&& intact(disk, older)
    &&& replayed(disk, root_on(disk, older)) == image_of(seen_from(state, older), older)
}

/// Whether `left` and `right` are at the same point of the same log.
pub open spec fn alike(left: Recovered, right: Recovered) -> bool {
    &&& left.cursor.volume_id == right.cursor.volume_id
    &&& left.cursor.volume_blocks == right.cursor.volume_blocks
    &&& left.cursor.backing_blocks == right.cursor.backing_blocks
    &&& left.cursor.checkpoint_lsn == right.cursor.checkpoint_lsn
    &&& left.cursor.last_footer_block == right.cursor.last_footer_block
    &&& left.physical == right.physical
    &&& left.checksums == right.checksums
}

/// The search for the next record goes by the point of the log alone.
proof fn lemma_alike_scan(disk: Disk, left: Recovered, right: Recovered, from: int)
    requires
        alike(left, right),
    ensures
        scan(disk, left, from) == scan(disk, right, from),
    decreases left.footer_limit() - from + 1,
{
    if from <= left.footer_limit() {
        assert(valid_footer(disk[from], left.cursor, from as u32) == valid_footer(
            disk[from],
            right.cursor,
            from as u32,
        ));
        lemma_alike_scan(disk, left, right, from + 1);
    }
}

/// Replay goes by the point of the log alone.
proof fn lemma_alike_replay(disk: Disk, left: Recovered, right: Recovered)
    requires
        left.wf(),
        right.wf(),
        alike(left, right),
    ensures
        alike(replayed(disk, left), replayed(disk, right)),
    decreases left.cursor.backing_blocks - left.cursor.last_footer_block,
{
    let from = left.cursor.last_footer_block + 2;
    lemma_alike_scan(disk, left, right, from);
    lemma_scan(disk, left, from);
    if let Some(found) = scan(disk, left, from) {
        let footer = disk[found];
        let block = found as u32;
        lemma_extended_wf(left, footer, block);
        lemma_extended_wf(right, footer, block);
        assert(footer_writes(footer, left.cursor, block) =~= footer_writes(
            footer,
            right.cursor,
            block,
        ));
        lemma_alike_replay(disk, left.extended(footer, block), right.extended(footer, block));
    }
}

/// A checkpoint whose blocks are the same leads to the same mapping.
proof fn lemma_same_root(disk: Disk, after: Disk, root: Checkpoint)
    requires
        root.coherent(),
        root.backing_blocks == disk.len(),
        after.len() == disk.len(),
        forall|i: int|
            root.body_start() <= i < root.body_start() + root.body_blocks() ==> disk[i]
                == #[trigger] after[i],
    ensures
        intact(after, root) == intact(disk, root),
        root_on(after, root) == root_on(disk, root),
        root_on(disk, root).wf(),
{
    law_layout_regions_are_adjacent(root.volume_blocks as int);
    assert(body_on(after, root) =~= body_on(disk, root));
}

/// Law: a volume keeps its second checkpoint through every record, flush, clearing, crash and
/// reopening: on any backing that agrees up to the end of the log and holds a volume that goes on
/// from there by the same newest checkpoint, replay leads to that volume from either one.
#[verifier::spinoff_prover]
#[verifier::rlimit(40)]
pub proof fn law_backup_lasts(disk: Disk, state: State, after: Disk, there: State)
    requires
        state.wf(),
        there.wf(),
        anchored(disk, state),
        backed_up(disk, state),
        anchored(after, there),
        after.len() == disk.len(),
        there.next_checkpoint_slot == state.next_checkpoint_slot,
        forall|i: int| 0 <= i <= state.last_footer_block ==> disk[i] == #[trigger] after[i],
    ensures
        backed_up(after, there),
{
    let root = selected(disk)->Ok_0;
    let older = checkpoint_on(disk, state.next_checkpoint_slot)->0;
    law_layout_regions_are_adjacent(state.volume_blocks as int);
    lemma_selected(disk, root);
    lemma_selected(after, selected(after)->Ok_0);
    assert(after[0] == disk[0]);
    assert(after[1] == disk[1]);
    assert(selected(after)->Ok_0 == root);
    lemma_same_root(disk, after, root);
    lemma_same_root(disk, after, older);
    let base = root_on(disk, root);
    let other = root_on(disk, older);
    lemma_replay(disk, base);
    lemma_replay(disk, other);
    lemma_replay_frame(disk, after, base);
    lemma_replay_frame(disk, after, other);
    let end = replayed(disk, base);
    let other_end = replayed(disk, other);
    assert(alike(end, other_end));
    lemma_alike_replay(after, end, other_end);
    lemma_replay(after, other_end);
    assert(replayed(after, end) == image_of(there, root));
    assert(replayed(after, other_end) == image_of(seen_from(there, older), older));
}

/// Law: a checkpoint makes the one before it the second checkpoint of the volume.
#[verifier::spinoff_prover]
#[verifier::rlimit(40)]
pub proof fn law_checkpoint_keeps_the_one_before(disk: Disk, state: State)
    requires
        sound(disk, state),
        state.checkpoint_lsn < state.last_lsn,
    ensures
        backed_up(performed_all(disk, state.checkpoint_requests()), state.published()),
{
    let after = performed_all(disk, state.checkpoint_requests());
    let root = selected(disk)->Ok_0;
    let slot = state.next_checkpoint_slot;
    let count = state.checkpoint_len();
    law_layout_regions_are_adjacent(state.volume_blocks as int);
    assert(state.checkpoint_requests().take(count) =~= state.checkpoint_requests());
    lemma_during_checkpoint(disk, state, count);
    lemma_selected(disk, root);
    lemma_same_root(disk, after, root);
    assert(after[slot.other().number() as int] == disk[slot.other().number() as int]);
    let base = root_on(disk, root);
    let end = image_of(state, root);
    lemma_replay(disk, base);
    lemma_replay_frame(disk, after, base);
    assert forall|i: int| state.last_footer_block < i <= state.cleared_to implies
        #[trigger] after[i] == zeros(4096) by {
        assert(after[i] == disk[i]);
    }
    lemma_clear_scan(after, state, root);
    assert(replayed(after, end) == end);
    assert(image_of(seen_from(state.published(), root), root) == end);
}

/// Law: a volume that is made and opened has both checkpoints.
#[verifier::spinoff_prover]
#[verifier::rlimit(40)]
pub proof fn law_formatted_volume_is_backed_up(
    disk: Disk,
    volume_id: u64,
    volume_blocks: u32,
    options: VolumeOpenOptions,
)
    requires
        backing_wf(disk),
        valid_volume_blocks(volume_blocks as int),
        layout_of(volume_blocks as int).log_start + 2 <= disk.len(),
        options.valid(),
        ({
            let root = initial_checkpoint(
                CheckpointSlot::Green,
                volume_id,
                volume_blocks,
                disk.len() as u64,
            );
            !record_follows(disk, root_on(disk, root))
        }),
    ensures
        ({
            let after = performed_all(
                disk,
                format_requests(volume_id, volume_blocks, disk.len() as u64),
            );
            let found = recovered_from(after)->Ok_0;
            backed_up(cleared(after, found, found.clear_blocks()), found.state(options))
        }),
{
    law_format_makes_an_empty_volume(disk, volume_id, volume_blocks, options);
    law_formatted_volume_is_sound(disk, volume_id, volume_blocks, options);
    let after = performed_all(
        disk,
        format_requests(volume_id, volume_blocks, disk.len() as u64),
    );
    let found = recovered_from(after)->Ok_0;
    let state = found.state(options);
    let opened = cleared(after, found, found.clear_blocks());
    let older = checkpoint_on(after, CheckpointSlot::Blue)->0;
    law_layout_regions_are_adjacent(volume_blocks as int);
    assert(opened[1] == after[1]);
    assert(checkpoint_on(opened, CheckpointSlot::Blue) == checkpoint_on(
        after,
        CheckpointSlot::Blue,
    ));
    let other = root_on(opened, older);
    assert(other == image_of(seen_from(state, older), older));
    lemma_clear_scan(opened, seen_from(state, older), older);
    assert(replayed(opened, other) == other);
}

/// Law: where the newer checkpoint is damaged, its descriptor or its body, opening goes by the
/// older one, and nothing is lost: the volume has the same last record, the same mapping and the
/// same contents.
#[verifier::spinoff_prover]
#[verifier::rlimit(40)]
pub proof fn law_damaged_checkpoint_falls_back(disk: Disk, after: Disk, state: State)
    requires
        sound(disk, state),
        backed_up(disk, state),
        disk_wf(after),
        after.len() == disk.len(),
        ({
            let root = selected(disk)->Ok_0;
            let end = root.body_start() + root.body_blocks();
            &&& forall|i: int|
                0 <= i < disk.len() && i != root.slot.number() && !(root.body_start() <= i < end)
                    ==> disk[i] == #[trigger] after[i]
            &&& checkpoint_on(after, root.slot) is None || (checkpoint_on(after, root.slot)
                == Some(root) && !intact(after, root))
        }),
    ensures
        ({
            let older = checkpoint_on(disk, state.next_checkpoint_slot)->0;
            let options = VolumeOpenOptions {
                checkpoint_after_bytes: state.checkpoint_after_bytes,
            };
            &&& selected(after) == Ok::<Checkpoint, StorageError>(older)
            &&& recovered_from(after) matches Ok(found)
            &&& found.root == older
            &&& found.state(options) == seen_from(state, older).reopened()
            &&& readable(disk, state) ==> readable(after, found.state(options))
            &&& placed(state) ==> forall|lba: int|
                0 <= lba < state.volume_blocks ==> #[trigger] content(
                    after,
                    found.state(options),
                    lba,
                ) == content(disk, state, lba)
        }),
{
    let root = selected(disk)->Ok_0;
    let slot = state.next_checkpoint_slot;
    let older = checkpoint_on(disk, slot)->0;
    let there = seen_from(state, older);
    law_layout_regions_are_adjacent(state.volume_blocks as int);
    lemma_selected(disk, root);
    assert(after[slot.number() as int] == disk[slot.number() as int]);
    assert(checkpoint_on(after, slot) == Some(older));
    lemma_same_root(disk, after, older);
    assert(selected(after) == Ok::<Checkpoint, StorageError>(older));
    let other = root_on(disk, older);
    lemma_replay(disk, other);
    lemma_replay_frame(disk, after, other);
    assert forall|i: int| state.last_footer_block < i <= state.cleared_to implies
        #[trigger] after[i] == zeros(4096) by {
        assert(after[i] == disk[i]);
    }
    let end = image_of(there, older);
    assert(there.wf());
    lemma_clear_scan(after, there, older);
    assert(replayed(after, end) == end);
    law_recovery_gives_back_the_volume(after, there);
    if placed(state) {
        assert forall|lba: int|
            0 <= lba < state.volume_blocks && #[trigger] state.physical_blocks[lba]
                != 0 implies after[state.physical_blocks[lba] as int]
            == disk[state.physical_blocks[lba] as int] by {}
    }
}

/// A crash outside a checkpoint keeps the second checkpoint.
#[verifier::spinoff_prover]
#[verifier::rlimit(40)]
proof fn lemma_crash_keeps_the_backup(run: Run, left: Disk, options: VolumeOpenOptions)
    requires
        run.holds(),
        run.can(Event::Crash { left, options }),
        !run.in_checkpoint(),
        backed_up(run.durable, run.base),
    ensures
        ({
            let after = run.after(Event::Crash { left, options });
            backed_up(after.durable, after.base)
        }),
{
    let after = run.after(Event::Crash { left, options });
    let recent = run.attempted().skip(run.safe);
    let count = run.surviving(left) - run.safe;
    let there = after_writes(run.base, recent, count);
    law_crash_keeps_a_prefix_of_all_writes(run, left, options);
    lemma_crash_logged(run, left);
    lemma_after_writes(run.base, recent, count);
    law_recovery_gives_back_the_volume(left, there);
    assert(after.base.next_checkpoint_slot == run.base.next_checkpoint_slot);
    assert forall|i: int| 0 <= i <= run.base.last_footer_block implies run.durable[i]
        == #[trigger] after.durable[i] by {
        assert(run.durable[i] == left[i]);
    }
    law_backup_lasts(run.durable, run.base, after.durable, after.base);
}

/// A completed sync outside a checkpoint keeps the second checkpoint.
#[verifier::spinoff_prover]
#[verifier::rlimit(40)]
proof fn lemma_sync_keeps_the_backup(run: Run)
    requires
        run.holds(),
        run.completed().holds(),
        !run.in_checkpoint(),
        run.state.outstanding(run.work).op is Sync,
        backed_up(run.durable, run.base),
    ensures
        ({
            let after = run.completed();
            after.in_checkpoint() || backed_up(after.durable, after.base)
        }),
{
    let after = run.completed();
    if !after.in_checkpoint() {
        lemma_logged(run);
        lemma_after_writes(run.base, run.recent(), run.recent().len() as int);
        assert(after.durable == run.current);
        assert(after.base.next_checkpoint_slot == run.base.next_checkpoint_slot);
        law_backup_lasts(run.durable, run.base, after.durable, after.base);
    }
}

/// A completed checkpoint makes the one before it the second.
#[verifier::spinoff_prover]
#[verifier::rlimit(40)]
proof fn lemma_checkpoint_makes_a_backup(run: Run)
    requires
        run.holds(),
        run.in_checkpoint(),
    ensures
        ({
            let after = run.completed();
            after.in_checkpoint() || backed_up(after.durable, after.base)
        }),
{
    let after = run.completed();
    let state = run.state;
    let count = state.checkpoint_len();
    if !after.in_checkpoint() {
        law_layout_regions_are_adjacent(state.volume_blocks as int);
        lemma_during_checkpoint(run.durable, state, count);
        assert(state.checkpoint_requests().take(count) =~= state.checkpoint_requests());
        assert(during_checkpoint(run.durable, state, count) =~= run.current);
        assert(after.durable == run.current);
        assert(after.base == state.published());
        law_checkpoint_keeps_the_one_before(run.durable, state);
    }
}

/// Law: whatever happens to a volume keeps its second checkpoint, from the making of the volume
/// on, except that the slot is in use while a checkpoint is being written to it; a crash at that
/// time can leave the volume without one until the next checkpoint is done.
pub proof fn law_every_event_keeps_the_backup(run: Run, event: Event)
    requires
        run.holds(),
        run.can(event),
        run.in_checkpoint() || backed_up(run.durable, run.base),
        !(run.in_checkpoint() && event is Crash),
    ensures
        ({
            let after = run.after(event);
            after.in_checkpoint() || backed_up(after.durable, after.base)
        }),
{
    match event {
        Event::Crash { left, options } => {
            lemma_crash_keeps_the_backup(run, left, options);
        },
        Event::Complete => {
            if run.in_checkpoint() {
                lemma_checkpoint_makes_a_backup(run);
            } else if run.state.outstanding(run.work).op is Sync {
                law_every_event_keeps_what_holds(run, event);
                lemma_sync_keeps_the_backup(run);
            }
        },
        _ => {},
    }
}

} // verus!
