//! What a volume keeps across operations, reopening and crashes.

#[allow(unused_imports)]
use crate::bytes::{u64_at, zeros};
#[allow(unused_imports)]
use crate::checksum::payload_checksum_of;
#[allow(unused_imports)]
use crate::descriptor::{Checkpoint, CheckpointSlot};
#[allow(unused_imports)]
use crate::device::{disk_wf, lemma_written_pair, performed, performed_all, Disk, Req};
#[allow(unused_imports)]
use crate::durability::{
    after_append, after_write, anchored, append_requests, clear_ahead, cleared, content, image_of,
    law_checkpoint_can_be_cut_short, law_checkpoint_keeps_the_content,
    law_clearing_ahead_keeps_the_volume, law_format_makes_an_empty_volume,
    law_operations_keep_the_volume_sound, law_opened_volume_is_anchored,
    law_recovery_gives_back_the_volume, law_write_changes_one_block, law_write_is_recovered,
    lemma_during_checkpoint, lemma_same_selection, placed, readable, record_follows, write_requests,
};
#[allow(unused_imports)]
use crate::footer::{
    footer_writes, law_footer_round_trip, law_zero_block_is_no_footer, valid_footer, RecoveredWrite,
};
#[allow(unused_imports)]
use crate::layout::{law_layout_regions_are_adjacent, layout_of, valid_volume_blocks};
#[allow(unused_imports)]
use crate::recovery::{checksums_after, format_requests, initial_checkpoint, physical_after};
#[allow(unused_imports)]
use crate::replay::{
    backing_wf, lemma_replay, lemma_replay_frame, lemma_scan_none, newest, recovered_from,
    replayed, replayed_from, root_on, scan, selected,
};
#[allow(unused_imports)]
use crate::volume::{State, VolumeOpenOptions, Work};
use vstd::prelude::*;

verus! {

/// What holds of a volume in use and its backing: opening the backing gives the volume, and the
/// blocks behind the log hold zeros as far as the volume knows.
pub open spec fn sound(disk: Disk, state: State) -> bool {
    &&& state.wf()
    &&& !state.failed
    &&& anchored(disk, state)
    &&& clear_ahead(disk, state)
}

/// Whether the checkpoint from which opening starts is the newest by the descriptors, so that no
/// newer one is damaged.
pub open spec fn settled(disk: Disk) -> bool {
    newest(disk) == Some(selected(disk)->Ok_0)
}

/// Whether every logical block holds on `after` what it held on `disk`.
pub open spec fn same_content(disk: Disk, state: State, after: Disk, new_state: State) -> bool {
    forall|lba: int|
        0 <= lba < state.volume_blocks ==> #[trigger] content(after, new_state, lba) == content(
            disk,
            state,
            lba,
        )
}

/// Whether `lba` holds `data` on `after`, and every other logical block what it held on `disk`.
pub open spec fn written_to(
    disk: Disk,
    state: State,
    after: Disk,
    new_state: State,
    lba: u32,
    data: Seq<u8>,
) -> bool {
    &&& content(after, new_state, lba as int) == data
    &&& forall|other: int|
        0 <= other < state.volume_blocks && other != lba ==> #[trigger] content(
            after,
            new_state,
            other,
        ) == content(disk, state, other)
}

/// Law: a volume that is made and then opened is sound, and all of its blocks hold zeros, unless
/// a valid footer for its identity already stood at the start of the log.
#[verifier::spinoff_prover]
#[verifier::rlimit(40)]
pub proof fn law_formatted_volume_is_sound(
    disk: Disk,
    volume_id: u64,
    volume_blocks: u32,
    options: VolumeOpenOptions,
)
    requires
        backing_wf(disk),
        valid_volume_blocks(volume_blocks as int),
        layout_of(volume_blocks as int).log_start + 2 <= disk.len(),
        options.valid(),
        ({
            let root = initial_checkpoint(
                CheckpointSlot::Green,
                volume_id,
                volume_blocks,
                disk.len() as u64,
            );
            !record_follows(disk, root_on(disk, root))
        }),
    ensures
        ({
            let after = performed_all(
                disk,
                format_requests(volume_id, volume_blocks, disk.len() as u64),
            );
            &&& recovered_from(after) matches Ok(found)
            &&& {
                let opened = cleared(after, found, found.clear_blocks());
                let state = found.state(options);
                &&& sound(opened, state)
                &&& settled(opened)
                &&& readable(opened, state)
                &&& state.volume_id == volume_id
                &&& state.volume_blocks == volume_blocks
                &&& state.last_lsn == 0
                &&& forall|lba: int|
                    0 <= lba < volume_blocks ==> #[trigger] state.physical_blocks[lba] == 0
                &&& forall|lba: int|
                    0 <= lba < volume_blocks ==> #[trigger] content(opened, state, lba) == zeros(
                        4096,
                    )
            }
        }),
{
    law_format_makes_an_empty_volume(disk, volume_id, volume_blocks, options);
    let after = performed_all(
        disk,
        format_requests(volume_id, volume_blocks, disk.len() as u64),
    );
    law_opened_volume_is_anchored(after, options);
}

/// Law: appending a record keeps a volume sound.
#[verifier::spinoff_prover]
#[verifier::rlimit(40)]
pub proof fn law_record_keeps_the_volume_sound(disk: Disk, state: State, lba: u32, data: Seq<u8>)
    requires
        sound(disk, state),
        state.allows(Work::Record { lba, data }),
    ensures
        sound(performed(disk, state.record_request(lba, data)), state.appended(lba, data)),
        settled(disk) ==> settled(performed(disk, state.record_request(lba, data))),
{
    let after = performed(disk, state.record_request(lba, data));
    let root = selected(disk)->Ok_0;
    let footer = state.new_footer(lba, data);
    law_layout_regions_are_adjacent(state.volume_blocks as int);
    law_footer_round_trip(image_of(state, root).cursor, lba, state.new_checksum(lba, data));
    lemma_written_pair(disk, state.last_footer_block + 1, data, footer);
    law_write_is_recovered(disk, state, lba, data);
    law_operations_keep_the_volume_sound(state, Work::Record { lba, data }, Ok(Seq::empty()));
    lemma_same_selection(disk, after, root);
}

/// Law: a checkpoint of a changed volume keeps it sound and changes no block.
#[verifier::spinoff_prover]
#[verifier::rlimit(40)]
pub proof fn law_checkpoint_keeps_the_volume_sound(disk: Disk, state: State)
    requires
        sound(disk, state),
        state.checkpoint_lsn < state.last_lsn,
    ensures
        ({
            let after = performed_all(disk, state.checkpoint_requests());
            &&& sound(after, state.published())
            &&& settled(after)
            &&& readable(disk, state) ==> readable(after, state.published())
            &&& placed(state) ==> same_content(disk, state, after, state.published())
        }),
{
    let count = state.checkpoint_len();
    let after = performed_all(disk, state.checkpoint_requests());
    law_layout_regions_are_adjacent(state.volume_blocks as int);
    assert(state.checkpoint_requests().take(count) =~= state.checkpoint_requests());
    law_checkpoint_can_be_cut_short(disk, state, count);
    lemma_during_checkpoint(disk, state, count);
    let published = state.published();
    assert forall|i: int|
        published.last_footer_block < i <= published.cleared_to implies #[trigger] after[i]
        == zeros(4096) by {
        assert(after[i] == disk[i]);
    }
    if placed(state) {
        law_checkpoint_keeps_the_content(disk, state, count);
        assert forall|lba: int| 0 <= lba < state.volume_blocks implies #[trigger] content(
            after,
            published,
            lba,
        ) == content(disk, state, lba) by {
            assert(content(after, state, lba) == content(disk, state, lba));
        }
    }
}

/// Law: clearing what stands behind the log keeps the volume sound and changes no block.
#[verifier::spinoff_prover]
#[verifier::rlimit(40)]
pub proof fn law_clearing_keeps_the_volume_sound(disk: Disk, state: State)
    requires
        sound(disk, state),
    ensures
        ({
            let after = performed_all(disk, state.clear_requests());
            &&& sound(after, state.cleared())
            &&& settled(disk) ==> settled(after)
            &&& readable(disk, state) ==> readable(after, state.cleared())
            &&& placed(state) ==> same_content(disk, state, after, state.cleared())
        }),
{
    let count = state.clear_len() + 1;
    let after = performed_all(disk, state.clear_requests());
    assert(state.clear_requests().take(count) =~= state.clear_requests());
    law_clearing_ahead_keeps_the_volume(disk, state, count);
    if placed(state) {
        assert forall|lba: int|
            0 <= lba < state.volume_blocks && #[trigger] state.physical_blocks[lba]
                != 0 implies after[state.physical_blocks[lba] as int]
            == disk[state.physical_blocks[lba] as int] by {}
    }
}

/// What appending a record after clearing, where it is needed, keeps.
#[verifier::spinoff_prover]
#[verifier::rlimit(40)]
proof fn lemma_append_keeps_the_volume_sound(disk: Disk, state: State, lba: u32, data: Seq<u8>)
    requires
        sound(disk, state),
        state.write_refusal(lba) is None,
        data.len() == 4096,
        !state.needs_checkpoint(),
    ensures
        ({
            let after = performed_all(disk, append_requests(state, lba, data));
            let new_state = after_append(state, lba, data);
            &&& sound(after, new_state)
            &&& settled(disk) ==> settled(after)
            &&& readable(disk, state) ==> readable(after, new_state)
            &&& placed(state) ==> placed(new_state) && written_to(
                disk,
                state,
                after,
                new_state,
                lba,
                data,
            )
        }),
{
    let requests = append_requests(state, lba, data);
    let after = performed_all(disk, requests);
    let new_state = after_append(state, lba, data);
    if state.needs_clearing() {
        let middle = performed_all(disk, state.clear_requests());
        let ready = state.cleared();
        assert(requests.drop_last() =~= state.clear_requests());
        law_clearing_keeps_the_volume_sound(disk, state);
        law_record_keeps_the_volume_sound(middle, ready, lba, data);
        if placed(state) {
            law_write_changes_one_block(middle, ready, lba, data);
            assert forall|other: int| 0 <= other < state.volume_blocks && other != lba implies
                #[trigger] content(after, new_state, other) == content(disk, state, other) by {
                assert(content(middle, ready, other) == content(disk, state, other));
            }
        }
    } else {
        assert(requests.drop_last() =~= Seq::<Req>::empty());
        assert(performed_all(disk, requests.drop_last()) == disk);
        law_record_keeps_the_volume_sound(disk, state, lba, data);
        if placed(state) {
            law_write_changes_one_block(disk, state, lba, data);
        }
    }
}

/// Requests are carried out in order, whichever way they are grouped.
proof fn lemma_performed_in_turn(disk: Disk, first: Seq<Req>, second: Seq<Req>)
    ensures
        performed_all(disk, first + second) == performed_all(performed_all(disk, first), second),
    decreases second.len(),
{
    if second.len() == 0 {
        assert(first + second =~= first);
    } else {
        assert((first + second).drop_last() =~= first + second.drop_last());
        lemma_performed_in_turn(disk, first, second.drop_last());
    }
}

/// Law: a write that is not refused keeps the volume sound, puts `data` at `lba` and leaves every
/// other block as it was.
#[verifier::spinoff_prover]
#[verifier::rlimit(40)]
pub proof fn law_write_keeps_the_volume_sound(disk: Disk, state: State, lba: u32, data: Seq<u8>)
    requires
        sound(disk, state),
        state.write_refusal(lba) is None,
        data.len() == 4096,
    ensures
        ({
            let after = performed_all(disk, write_requests(state, lba, data));
            let new_state = after_write(state, lba, data);
            &&& sound(after, new_state)
            &&& settled(disk) ==> settled(after)
            &&& readable(disk, state) ==> readable(after, new_state)
            &&& placed(state) ==> placed(new_state) && written_to(
                disk,
                state,
                after,
                new_state,
                lba,
                data,
            )
        }),
{
    let after = performed_all(disk, write_requests(state, lba, data));
    let new_state = after_write(state, lba, data);
    if state.needs_checkpoint() {
        let middle = performed_all(disk, state.checkpoint_requests());
        let published = state.published();
        law_checkpoint_keeps_the_volume_sound(disk, state);
        lemma_append_keeps_the_volume_sound(middle, published, lba, data);
        lemma_performed_in_turn(
            disk,
            state.checkpoint_requests(),
            append_requests(published, lba, data),
        );
        if placed(state) {
            assert forall|other: int| 0 <= other < state.volume_blocks && other != lba implies
                #[trigger] content(after, new_state, other) == content(disk, state, other) by {
                assert(content(middle, published, other) == content(disk, state, other));
            }
        }
    } else {
        lemma_append_keeps_the_volume_sound(disk, state, lba, data);
    }
}

/// Law: opening the backing of a sound volume gives that volume with everything durable, sound
/// again, and every block as it was.
#[verifier::spinoff_prover]
#[verifier::rlimit(40)]
pub proof fn law_reopening_keeps_the_volume_sound(disk: Disk, state: State)
    requires
        sound(disk, state),
    ensures
        ({
            let options = VolumeOpenOptions {
                checkpoint_after_bytes: state.checkpoint_after_bytes,
            };
            &&& recovered_from(disk) matches Ok(found)
            &&& found.state(options) == state.reopened()
            &&& {
                let after = cleared(disk, found, found.clear_blocks());
                &&& sound(after, state.reopened())
                &&& settled(disk) ==> settled(after)
                &&& readable(disk, state) ==> readable(after, state.reopened())
                &&& placed(state) ==> same_content(disk, state, after, state.reopened())
            }
        }),
{
    let options = VolumeOpenOptions { checkpoint_after_bytes: state.checkpoint_after_bytes };
    law_recovery_gives_back_the_volume(disk, state);
    law_opened_volume_is_anchored(disk, options);
    let found = recovered_from(disk)->Ok_0;
    let after = cleared(disk, found, found.clear_blocks());
    if placed(state) {
        assert forall|lba: int|
            0 <= lba < state.volume_blocks && #[trigger] state.physical_blocks[lba]
                != 0 implies after[state.physical_blocks[lba] as int]
            == disk[state.physical_blocks[lba] as int] by {}
    }
}

/// The backing and the volume after the first `count` of `writes`, each a logical block and its
/// new content, with the checkpoints and the clearing that they ask for.
pub open spec fn all_written(
    disk: Disk,
    state: State,
    writes: Seq<(u32, Seq<u8>)>,
    count: int,
) -> (Disk, State)
    decreases count,
{
    if count <= 0 {
        (disk, state)
    } else {
        let (before, there) = all_written(disk, state, writes, count - 1);
        let (lba, data) = writes[count - 1];
        (performed_all(before, write_requests(there, lba, data)), after_write(there, lba, data))
    }
}

/// Law: what opening has ignored never comes back. On whatever backing a volume was opened, with
/// whatever stands behind the gap at the end of its log, after any number of writes opening finds
/// the last of them as the last record, and the mapping that these writes have left.
#[verifier::spinoff_prover]
#[verifier::rlimit(40)]
pub proof fn law_ignored_records_never_return(
    disk: Disk,
    options: VolumeOpenOptions,
    writes: Seq<(u32, Seq<u8>)>,
    count: int,
)
    requires
        backing_wf(disk),
        recovered_from(disk) is Ok,
        options.valid(),
        0 <= count <= writes.len(),
        ({
            let found = recovered_from(disk)->Ok_0;
            let opened = cleared(disk, found, found.clear_blocks());
            forall|i: int|
                0 <= i < count ==> {
                    &&& (#[trigger] writes[i]).1.len() == 4096
                    &&& all_written(
                        opened,
                        found.state(options),
                        writes,
                        i,
                    ).1.write_refusal(writes[i].0) is None
                }
        }),
    ensures
        ({
            let found = recovered_from(disk)->Ok_0;
            let opened = cleared(disk, found, found.clear_blocks());
            let (after, there) = all_written(opened, found.state(options), writes, count);
            &&& sound(after, there)
            &&& there.last_lsn == found.cursor.checkpoint_lsn + count
            &&& there.checkpoint_after_bytes == options.checkpoint_after_bytes
            &&& recovered_from(after) matches Ok(again) && again.state(options)
                == there.reopened()
        }),
    decreases count,
{
    let found = recovered_from(disk)->Ok_0;
    let opened = cleared(disk, found, found.clear_blocks());
    let (after, there) = all_written(opened, found.state(options), writes, count);
    if count == 0 {
        law_opened_volume_is_anchored(disk, options);
    } else {
        law_ignored_records_never_return(disk, options, writes, count - 1);
        let (before, state) = all_written(opened, found.state(options), writes, count - 1);
        let (lba, data) = writes[count - 1];
        assert(state.write_refusal(lba) is None && data.len() == 4096);
        law_write_keeps_the_volume_sound(before, state, lba, data);
        assert(state.checkpoint_after_bytes == options.checkpoint_after_bytes);
    }
    law_recovery_gives_back_the_volume(after, there);
}

/// The volume after the first `count` of `writes`, each a logical block and its new content.
pub open spec fn after_writes(state: State, writes: Seq<(u32, Seq<u8>)>, count: int) -> State
    decreases count,
{
    if count <= 0 {
        state
    } else {
        after_writes(state, writes, count - 1).appended(writes[count - 1].0, writes[count - 1].1)
    }
}

/// Whether all of `writes` can be appended without a checkpoint or clearing among them.
pub open spec fn can_append(state: State, writes: Seq<(u32, Seq<u8>)>) -> bool {
    forall|i: int|
        0 <= i < writes.len() ==> (#[trigger] after_writes(state, writes, i)).allows(
            Work::Record { lba: writes[i].0, data: writes[i].1 },
        )
}

/// The footer of write `index`.
pub open spec fn footer_in(state: State, writes: Seq<(u32, Seq<u8>)>, index: int) -> Seq<u8> {
    after_writes(state, writes, index).new_footer(writes[index].0, writes[index].1)
}

/// What `writes` put into `block`, which lies among their records: a payload or a footer.
pub open spec fn record_block(state: State, writes: Seq<(u32, Seq<u8>)>, block: int) -> Seq<u8> {
    let at = block - state.last_footer_block - 1;
    if at % 2 == 0 {
        writes[at / 2].1
    } else {
        footer_in(state, writes, at / 2)
    }
}

/// Whether `crashed` is what a crash can leave of `disk` when `writes` were appended and not
/// flushed: anything in the blocks of their records, lost, torn or whole, anything behind the
/// blocks that were cleared, and elsewhere what was there.
pub open spec fn may_leave(
    disk: Disk,
    state: State,
    writes: Seq<(u32, Seq<u8>)>,
    crashed: Disk,
) -> bool {
    &&& disk_wf(crashed)
    &&& crashed.len() == disk.len()
    &&& forall|i: int|
        0 <= i <= state.cleared_to && !(state.last_footer_block < i <= state.last_footer_block + 2
            * writes.len()) ==> #[trigger] crashed[i] == disk[i]
}

/// How many footers of `writes`, from the first on, are on `crashed` without a gap.
pub open spec fn kept_from(
    state: State,
    writes: Seq<(u32, Seq<u8>)>,
    crashed: Disk,
    from: int,
) -> int
    decreases writes.len() - from,
{
    if 0 <= from < writes.len() && crashed[state.last_footer_block + 2 * from + 2] == footer_in(
        state,
        writes,
        from,
    ) {
        kept_from(state, writes, crashed, from + 1)
    } else {
        from
    }
}

/// How many writes a crash has kept.
pub open spec fn kept(state: State, writes: Seq<(u32, Seq<u8>)>, crashed: Disk) -> int {
    kept_from(state, writes, crashed, 0)
}

/// The footers that count as kept are there, and the next one is not.
pub proof fn lemma_kept(state: State, writes: Seq<(u32, Seq<u8>)>, crashed: Disk, from: int)
    requires
        0 <= from <= writes.len(),
    ensures
        ({
            let end = kept_from(state, writes, crashed, from);
            &&& from <= end <= writes.len()
            &&& forall|i: int|
                from <= i < end ==> crashed[state.last_footer_block + 2 * i + 2]
                    == #[trigger] footer_in(state, writes, i)
            &&& end < writes.len() ==> crashed[state.last_footer_block + 2 * end + 2]
                != footer_in(state, writes, end)
        }),
    decreases writes.len() - from,
{
    if from < writes.len() && crashed[state.last_footer_block + 2 * from + 2] == footer_in(
        state,
        writes,
        from,
    ) {
        lemma_kept(state, writes, crashed, from + 1);
    }
}

/// Where the volume stands after some writes.
pub proof fn lemma_after_writes(state: State, writes: Seq<(u32, Seq<u8>)>, count: int)
    requires
        state.wf(),
        can_append(state, writes),
        0 <= count <= writes.len(),
    ensures
        ({
            let there = after_writes(state, writes, count);
            &&& there.wf()
            &&& there.volume_id == state.volume_id
            &&& there.volume_blocks == state.volume_blocks
            &&& there.backing_blocks == state.backing_blocks
            &&& there.checkpoint_lsn == state.checkpoint_lsn
            &&& there.next_checkpoint_slot == state.next_checkpoint_slot
            &&& there.checkpoint_after_bytes == state.checkpoint_after_bytes
            &&& there.failed == state.failed
            &&& there.cleared_to == state.cleared_to
            &&& there.last_footer_block <= state.cleared_to
            &&& there.last_lsn == state.last_lsn + count
            &&& there.last_footer_block == state.last_footer_block + 2 * count
        }),
    decreases count,
{
    if count > 0 {
        lemma_after_writes(state, writes, count - 1);
        let before = after_writes(state, writes, count - 1);
        assert(before.allows(
            Work::Record { lba: writes[count - 1].0, data: writes[count - 1].1 },
        ));
        law_layout_regions_are_adjacent(state.volume_blocks as int);
    }
}

/// The footer of a write is valid where it stands, and nowhere behind another one.
proof fn lemma_footer_in(
    state: State,
    writes: Seq<(u32, Seq<u8>)>,
    index: int,
    root: Checkpoint,
)
    requires
        state.wf(),
        can_append(state, writes),
        0 <= index < writes.len(),
        root.volume_id == state.volume_id,
        root.volume_blocks == state.volume_blocks,
    ensures
        ({
            let there = after_writes(state, writes, index);
            let end = image_of(there, root);
            let footer = footer_in(state, writes, index);
            let footer_block = (there.last_footer_block + 2) as u32;
            &&& footer.len() == 4096
            &&& u64_at(footer, 16) == there.last_lsn + 1
            &&& valid_footer(footer, end.cursor, footer_block)
            &&& end.extended(footer, footer_block) == image_of(
                after_writes(state, writes, index + 1),
                root,
            )
        }),
{
    let there = after_writes(state, writes, index);
    let (lba, data) = writes[index];
    let end = image_of(there, root);
    let footer = footer_in(state, writes, index);
    let footer_block = (there.last_footer_block + 2) as u32;
    lemma_after_writes(state, writes, index);
    assert(there.allows(Work::Record { lba, data }));
    law_footer_round_trip(end.cursor, lba, there.new_checksum(lba, data));
    let found = footer_writes(footer, end.cursor, footer_block);
    let next = there.appended(lba, data);
    assert(found.drop_last() =~= Seq::<RecoveredWrite>::empty());
    assert(physical_after(end.physical, found) =~= next.physical_blocks) by {
        reveal_with_fuel(physical_after, 2);
    }
    assert(checksums_after(end.checksums, found) =~= next.checksums) by {
        reveal_with_fuel(checksums_after, 2);
    }
    assert(after_writes(state, writes, index + 1) == next);
}

/// Replay passes over the records whose footers were kept.
proof fn lemma_replay_kept(
    state: State,
    writes: Seq<(u32, Seq<u8>)>,
    crashed: Disk,
    root: Checkpoint,
    count: int,
)
    requires
        state.wf(),
        can_append(state, writes),
        0 <= count <= kept(state, writes, crashed),
        root.volume_id == state.volume_id,
        root.volume_blocks == state.volume_blocks,
        root.backing_blocks == state.backing_blocks,
    ensures
        replayed(crashed, image_of(state, root)) == replayed(
            crashed,
            image_of(after_writes(state, writes, count), root),
        ),
    decreases count,
{
    lemma_kept(state, writes, crashed, 0);
    if count > 0 {
        let index = count - 1;
        lemma_replay_kept(state, writes, crashed, root, index);
        lemma_after_writes(state, writes, index);
        lemma_footer_in(state, writes, index, root);
        let there = after_writes(state, writes, index);
        let end = image_of(there, root);
        let found = there.last_footer_block + 2;
        assert(there.allows(Work::Record { lba: writes[index].0, data: writes[index].1 }));
        assert(crashed[found] == footer_in(state, writes, index));
        assert(scan(crashed, end, found) == Some(found));
        assert(replayed(crashed, end) == replayed_from(
            crashed,
            end.extended(crashed[found], found as u32),
            found + 2,
        ));
    }
}

/// Whether a block behind the first lost footer passes for that footer.
pub open spec fn misled(
    state: State,
    writes: Seq<(u32, Seq<u8>)>,
    crashed: Disk,
    root: Checkpoint,
) -> bool {
    let count = kept(state, writes, crashed);
    exists|i: int|
        state.last_footer_block + 2 * count + 2 <= i <= state.last_footer_block + 2 * writes.len()
            && valid_footer(
            #[trigger] crashed[i],
            image_of(after_writes(state, writes, count), root).cursor,
            i as u32,
        )
}

/// Law: of the blocks that survive a crash whole, only a payload can pass for the lost footer
/// before it, and only one that was made to: neither the footers of later records nor the zeros
/// that stood there before do.
#[verifier::spinoff_prover]
#[verifier::rlimit(60)]
pub proof fn law_only_a_payload_misleads(
    disk: Disk,
    state: State,
    writes: Seq<(u32, Seq<u8>)>,
    crashed: Disk,
)
    requires
        sound(disk, state),
        can_append(state, writes),
        may_leave(disk, state, writes, crashed),
        forall|i: int|
            state.last_footer_block < i <= state.last_footer_block + 2 * writes.len() ==> {
                ||| #[trigger] crashed[i] == disk[i]
                ||| crashed[i] == record_block(state, writes, i)
            },
        misled(state, writes, crashed, selected(disk)->Ok_0),
    ensures
        ({
            let count = kept(state, writes, crashed);
            let cursor = image_of(
                after_writes(state, writes, count),
                selected(disk)->Ok_0,
            ).cursor;
            exists|i: int|
                count < i < writes.len() && crashed[state.last_footer_block + 2 * i + 1]
                    == (#[trigger] writes[i]).1 && valid_footer(
                    writes[i].1,
                    cursor,
                    (state.last_footer_block + 2 * i + 1) as u32,
                )
        }),
{
    let root = selected(disk)->Ok_0;
    let count = kept(state, writes, crashed);
    let end = image_of(after_writes(state, writes, count), root);
    lemma_kept(state, writes, crashed, 0);
    lemma_after_writes(state, writes, count);
    lemma_after_writes(state, writes, writes.len() as int);
    let i = choose|i: int|
        state.last_footer_block + 2 * count + 2 <= i <= state.last_footer_block + 2 * writes.len()
            && valid_footer(#[trigger] crashed[i], end.cursor, i as u32);
    lemma_record_block(state, writes, i, root);
    let at = i - state.last_footer_block - 1;
    if crashed[i] == disk[i] {
        assert(disk[i] == zeros(4096));
        law_zero_block_is_no_footer(end.cursor, i as u32);
    } else if at % 2 == 0 {
        assert(i == state.last_footer_block + 2 * (at / 2) + 1);
        assert(crashed[i] == writes[at / 2].1);
    } else {
        assert(i == state.last_footer_block + 2 * (at / 2) + 2);
        lemma_after_writes(state, writes, at / 2);
        assert(at / 2 != count);
    }
}

/// Behind the first record whose footer a crash has lost, nothing continues the log.
#[verifier::spinoff_prover]
#[verifier::rlimit(40)]
proof fn lemma_lost_record_ends_the_log(
    disk: Disk,
    state: State,
    writes: Seq<(u32, Seq<u8>)>,
    crashed: Disk,
)
    requires
        sound(disk, state),
        can_append(state, writes),
        may_leave(disk, state, writes, crashed),
        !misled(state, writes, crashed, selected(disk)->Ok_0),
    ensures
        !record_follows(
            crashed,
            image_of(
                after_writes(state, writes, kept(state, writes, crashed)),
                selected(disk)->Ok_0,
            ),
        ),
{
    let root = selected(disk)->Ok_0;
    let count = kept(state, writes, crashed);
    let end = image_of(after_writes(state, writes, count), root);
    lemma_kept(state, writes, crashed, 0);
    lemma_after_writes(state, writes, count);
    let from = end.cursor.last_footer_block + 2;
    assert forall|i: int| from <= i <= end.footer_limit() implies !valid_footer(
        #[trigger] crashed[i],
        end.cursor,
        i as u32,
    ) by {
        assert(i <= state.cleared_to);
        if i > state.last_footer_block + 2 * writes.len() {
            assert(crashed[i] == disk[i]);
            assert(disk[i] == zeros(4096));
            law_zero_block_is_no_footer(end.cursor, i as u32);
        }
    }
    lemma_scan_none(crashed, end, from);
}

/// Law: whatever a crash leaves of records that were not flushed, opening gives the volume as it
/// was after the first of them, up to the first whose footer is lost: a prefix of the writes, and
/// all that was flushed. Neither a record behind the lost one nor anything that stood behind the
/// log before comes back. This leaves out a block behind the lost footer that passes for it; see
/// [`law_only_a_payload_misleads`].
#[verifier::spinoff_prover]
#[verifier::rlimit(60)]
pub proof fn law_crash_leaves_a_prefix(
    disk: Disk,
    state: State,
    writes: Seq<(u32, Seq<u8>)>,
    crashed: Disk,
)
    requires
        sound(disk, state),
        can_append(state, writes),
        may_leave(disk, state, writes, crashed),
        !misled(state, writes, crashed, selected(disk)->Ok_0),
    ensures
        0 <= kept(state, writes, crashed) <= writes.len(),
        anchored(crashed, after_writes(state, writes, kept(state, writes, crashed))),
        after_writes(state, writes, kept(state, writes, crashed)).wf(),
        newest(crashed) == newest(disk),
        selected(crashed) == selected(disk),
{
    let root = selected(disk)->Ok_0;
    let base = root_on(disk, root);
    let count = kept(state, writes, crashed);
    law_layout_regions_are_adjacent(state.volume_blocks as int);
    lemma_kept(state, writes, crashed, 0);
    lemma_after_writes(state, writes, count);
    lemma_replay(disk, base);
    lemma_lost_record_ends_the_log(disk, state, writes, crashed);
    assert forall|i: int| 0 <= i <= state.last_footer_block implies disk[i]
        == #[trigger] crashed[i] by {}
    lemma_same_selection(disk, crashed, root);
    lemma_replay_frame(disk, crashed, base);
    lemma_replay_kept(state, writes, crashed, root, count);
    let end = image_of(after_writes(state, writes, count), root);
    assert(replayed(crashed, end) == end);
}

/// Law: the volume that is opened after a crash is sound again, so that it can be used, and
/// survive the next crash, like any other. With the options it had it is the volume after the
/// kept writes.
#[verifier::spinoff_prover]
#[verifier::rlimit(60)]
pub proof fn law_volume_is_sound_after_a_crash(
    disk: Disk,
    state: State,
    writes: Seq<(u32, Seq<u8>)>,
    crashed: Disk,
    options: VolumeOpenOptions,
)
    requires
        sound(disk, state),
        can_append(state, writes),
        may_leave(disk, state, writes, crashed),
        !misled(state, writes, crashed, selected(disk)->Ok_0),
        options.valid(),
    ensures
        recovered_from(crashed) matches Ok(found) && {
            let opened = cleared(crashed, found, found.clear_blocks());
            let there = after_writes(state, writes, kept(state, writes, crashed));
            &&& sound(opened, found.state(options))
            &&& settled(disk) ==> settled(opened)
            &&& found.state(options) == State {
                checkpoint_after_bytes: options.checkpoint_after_bytes,
                ..there.reopened()
            }
        },
{
    let there = after_writes(state, writes, kept(state, writes, crashed));
    law_crash_leaves_a_prefix(disk, state, writes, crashed);
    lemma_kept(state, writes, crashed, 0);
    lemma_after_writes(state, writes, kept(state, writes, crashed));
    law_recovery_gives_back_the_volume(crashed, there);
    law_opened_volume_is_anchored(crashed, options);
}

/// What is known of a block among the records of some writes.
pub proof fn lemma_record_block(
    state: State,
    writes: Seq<(u32, Seq<u8>)>,
    block: int,
    root: Checkpoint,
)
    requires
        state.wf(),
        can_append(state, writes),
        root.volume_id == state.volume_id,
        root.volume_blocks == state.volume_blocks,
    ensures
        state.last_footer_block < block <= state.last_footer_block + 2 * writes.len() ==> {
            let at = block - state.last_footer_block - 1;
            &&& 0 <= at / 2 < writes.len()
            &&& record_block(state, writes, block).len() == 4096
            &&& at % 2 == 1 ==> u64_at(record_block(state, writes, block), 16) == state.last_lsn
                + at / 2 + 1
        },
{
    let at = block - state.last_footer_block - 1;
    if state.last_footer_block < block <= state.last_footer_block + 2 * writes.len() {
        lemma_after_writes(state, writes, at / 2);
        assert(after_writes(state, writes, at / 2).allows(
            Work::Record { lba: writes[at / 2].0, data: writes[at / 2].1 },
        ));
        lemma_footer_in(state, writes, at / 2, root);
    }
}

/// Writes to other blocks leave the mapping of `lba` alone.
pub proof fn lemma_mapping_kept(
    state: State,
    writes: Seq<(u32, Seq<u8>)>,
    from: int,
    count: int,
    lba: int,
)
    requires
        state.wf(),
        can_append(state, writes),
        0 <= from <= count <= writes.len(),
        0 <= lba < state.volume_blocks,
        forall|i: int| from <= i < count ==> (#[trigger] writes[i]).0 != lba,
    ensures
        after_writes(state, writes, count).physical_blocks[lba] == after_writes(
            state,
            writes,
            from,
        ).physical_blocks[lba],
        after_writes(state, writes, count).checksums[lba] == after_writes(
            state,
            writes,
            from,
        ).checksums[lba],
    decreases count - from,
{
    if from < count {
        lemma_mapping_kept(state, writes, from, count - 1, lba);
        lemma_after_writes(state, writes, count - 1);
        assert(writes[count - 1].0 != lba);
        assert(after_writes(state, writes, count - 1).allows(
            Work::Record { lba: writes[count - 1].0, data: writes[count - 1].1 },
        ));
    }
}

/// Law: a block that was flushed and that none of the kept writes replaced holds after a crash
/// what it held, and its checksum fits.
pub proof fn law_crash_keeps_what_was_flushed(
    disk: Disk,
    state: State,
    writes: Seq<(u32, Seq<u8>)>,
    crashed: Disk,
    lba: int,
)
    requires
        state.wf(),
        placed(state),
        disk.len() == state.backing_blocks,
        can_append(state, writes),
        may_leave(disk, state, writes, crashed),
        0 <= lba < state.volume_blocks,
        forall|i: int|
            0 <= i < kept(state, writes, crashed) ==> (#[trigger] writes[i]).0 != lba,
    ensures
        ({
            let there = after_writes(state, writes, kept(state, writes, crashed));
            &&& content(crashed, there, lba) == content(disk, state, lba)
            &&& readable(disk, state) && there.physical_blocks[lba] != 0 ==> payload_checksum_of(
                there.volume_id,
                lba as u32,
                there.physical_blocks[lba],
                content(crashed, there, lba),
            ) == there.checksums[lba]
        }),
{
    let count = kept(state, writes, crashed);
    lemma_kept(state, writes, crashed, 0);
    lemma_after_writes(state, writes, count);
    lemma_mapping_kept(state, writes, 0, count, lba);
    let block = state.physical_blocks[lba] as int;
    if block != 0 {
        assert(crashed[block] == disk[block]);
    }
}

/// Law: a block that a kept write replaced is read after a crash from where that write put its
/// payload, and what is there is held against the checksum of that payload.
pub proof fn law_crash_keeps_surviving_payloads(
    disk: Disk,
    state: State,
    writes: Seq<(u32, Seq<u8>)>,
    crashed: Disk,
    index: int,
)
    requires
        state.wf(),
        disk.len() == state.backing_blocks,
        can_append(state, writes),
        may_leave(disk, state, writes, crashed),
        0 <= index < kept(state, writes, crashed),
        forall|i: int|
            index < i < kept(state, writes, crashed) ==> (#[trigger] writes[i]).0
                != writes[index].0,
    ensures
        ({
            let there = after_writes(state, writes, kept(state, writes, crashed));
            let (lba, data) = writes[index];
            let block = state.last_footer_block + 2 * index + 1;
            &&& there.physical_blocks[lba as int] == block
            &&& there.checksums[lba as int] == payload_checksum_of(
                there.volume_id,
                lba,
                block as u32,
                data,
            )
            &&& content(crashed, there, lba as int) == crashed[block]
        }),
{
    let count = kept(state, writes, crashed);
    let (lba, data) = writes[index];
    let before = after_writes(state, writes, index);
    lemma_kept(state, writes, crashed, 0);
    lemma_after_writes(state, writes, index);
    lemma_after_writes(state, writes, index + 1);
    lemma_after_writes(state, writes, count);
    assert(before.allows(Work::Record { lba, data }));
    assert(after_writes(state, writes, index + 1) == before.appended(lba, data));
    lemma_mapping_kept(state, writes, index + 1, count, lba as int);
}

} // verus!
