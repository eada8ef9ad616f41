//! What opening a volume finds on a disk.

#[allow(unused_imports)]
use crate::body::{
    checksums_extended, checksums_from, joined, lemma_joined_push, physical_extended, physical_from,
};
#[allow(unused_imports)]
use crate::checksum::xxh3_digest;
#[allow(unused_imports)]
use crate::descriptor::{decoded_checkpoint, Checkpoint, CheckpointSlot};
#[allow(unused_imports)]
use crate::device::{disk_wf, Disk, Op, Req};
#[allow(unused_imports)]
use crate::error::{IoFailure, StorageError};
#[allow(unused_imports)]
use crate::footer::{footer_writes, lba_at, valid_footer, RecoveredWrite};
#[allow(unused_imports)]
use crate::layout::law_layout_regions_are_adjacent;
#[allow(unused_imports)]
use crate::recovery::{
    at_root, candidates, checksums_after, physical_after, roots_refusal, OpenStepView, OpeningView,
    Phase, Recovered,
};
use vstd::prelude::*;

verus! {

/// Whether `disk` can be a backing: whole blocks, few enough to be addressed.
pub open spec fn backing_wf(disk: Disk) -> bool {
    disk_wf(disk) && 2 <= disk.len() <= 0x1_0000_0000
}

/// The first block from `from` on that ends the next record, if one does.
pub open spec fn scan(disk: Disk, recovered: Recovered, from: int) -> Option<int>
    decreases recovered.footer_limit() - from + 1,
{
    if from > recovered.footer_limit() {
        None
    } else if valid_footer(disk[from], recovered.cursor, from as u32) {
        Some(from)
    } else {
        scan(disk, recovered, from + 1)
    }
}

/// The mapping after all records that follow, looking for the first from block `from` on.
pub open spec fn replayed_from(disk: Disk, recovered: Recovered, from: int) -> Recovered
    decreases recovered.cursor.backing_blocks - recovered.cursor.last_footer_block,
{
    match scan(disk, recovered, from) {
        None => recovered,
        Some(footer_block) => if recovered.cursor.last_footer_block < footer_block
            < recovered.cursor.backing_blocks && footer_block <= u32::MAX {
            replayed_from(
                disk,
                recovered.extended(disk[footer_block], footer_block as u32),
                footer_block + 2,
            )
        } else {
            recovered
        },
    }
}

/// The mapping after all records that follow.
pub open spec fn replayed(disk: Disk, recovered: Recovered) -> Recovered {
    replayed_from(disk, recovered, recovered.cursor.last_footer_block + 2)
}

/// The blocks of the body of `checkpoint`.
pub open spec fn body_on(disk: Disk, checkpoint: Checkpoint) -> Seq<Seq<u8>> {
    disk.subrange(checkpoint.body_start(), checkpoint.body_start() + checkpoint.body_blocks())
}

/// Whether the body of `checkpoint` is what its checksum says. An empty volume has none.
pub open spec fn intact(disk: Disk, checkpoint: Checkpoint) -> bool {
    checkpoint.checkpoint_lsn == 0 || xxh3_digest(0, joined(body_on(disk, checkpoint)))
        == checkpoint.body_checksum
}

/// The mapping of `checkpoint`.
pub open spec fn root_on(disk: Disk, checkpoint: Checkpoint) -> Recovered {
    let count = checkpoint.volume_blocks as nat;
    if checkpoint.checkpoint_lsn == 0 {
        at_root(checkpoint, Seq::new(count, |i: int| 0u32), Seq::new(count, |i: int| 0u64))
    } else {
        at_root(
            checkpoint,
            physical_from(body_on(disk, checkpoint), count),
            checksums_from(
                body_on(disk, checkpoint),
                checkpoint.layout.physical_map_blocks as int,
                count,
            ),
        )
    }
}

/// The checkpoint that the descriptor in `slot` describes.
pub open spec fn checkpoint_on(disk: Disk, slot: CheckpointSlot) -> Option<Checkpoint> {
    decoded_checkpoint(disk[slot.number() as int], slot, (4096 * disk.len()) as u64)
}

/// The newest checkpoint by the descriptors alone.
pub open spec fn newest(disk: Disk) -> Option<Checkpoint> {
    candidates(
        checkpoint_on(disk, CheckpointSlot::Green),
        checkpoint_on(disk, CheckpointSlot::Blue),
    ).0
}

/// The first of the two whose body is intact.
pub open spec fn first_intact(
    disk: Disk,
    first: Option<Checkpoint>,
    second: Option<Checkpoint>,
) -> Result<Checkpoint, StorageError> {
    match first {
        None => Err(StorageError::NoValidCheckpointBody),
        Some(checkpoint) => if intact(disk, checkpoint) {
            Ok(checkpoint)
        } else {
            match second {
                Some(fallback) => if intact(disk, fallback) {
                    Ok(fallback)
                } else {
                    Err(StorageError::NoValidCheckpointBody)
                },
                None => Err(StorageError::NoValidCheckpointBody),
            }
        },
    }
}

/// The checkpoint from which opening starts.
pub open spec fn selected(disk: Disk) -> Result<Checkpoint, StorageError> {
    let green = checkpoint_on(disk, CheckpointSlot::Green);
    let blue = checkpoint_on(disk, CheckpointSlot::Blue);
    match roots_refusal(green, blue) {
        Some(error) => Err(error),
        None => first_intact(disk, candidates(green, blue).0, candidates(green, blue).1),
    }
}

/// The mapping that a root leads to.
pub open spec fn followed(disk: Disk, root: Result<Checkpoint, StorageError>) -> Result<
    Recovered,
    StorageError,
> {
    match root {
        Ok(checkpoint) => Ok(replayed(disk, root_on(disk, checkpoint))),
        Err(error) => Err(error),
    }
}

/// What opening finds on `disk`.
pub open spec fn recovered_from(disk: Disk) -> Result<Recovered, StorageError> {
    followed(disk, selected(disk))
}

impl OpeningView {
    /// Whether what has been read so far is what `disk` holds.
    pub open spec fn faithful(self, disk: Disk) -> bool {
        &&& self.backing_bytes == 4096 * disk.len()
        &&& match self.phase {
            Phase::Descriptors => true,
            Phase::Body { checkpoint, fallback, index, fed, physical, checksums } => {
                let body = body_on(disk, checkpoint);
                &&& checkpoint.backing_blocks == disk.len()
                &&& fallback matches Some(other) ==> other.backing_blocks == disk.len()
                &&& fed == joined(body.take(index))
                &&& physical == physical_from(body, physical.len())
                &&& checksums == checksums_from(
                    body,
                    checkpoint.layout.physical_map_blocks as int,
                    checksums.len(),
                )
            },
            Phase::Replay { recovered, probe } => recovered.cursor.backing_blocks == disk.len(),
            Phase::Clear { recovered, index } => recovered.cursor.backing_blocks == disk.len(),
        }
    }

    /// What opening will find on `disk`.
    pub open spec fn outcome(self, disk: Disk) -> Result<Recovered, StorageError> {
        match self.phase {
            Phase::Descriptors => recovered_from(disk),
            Phase::Body { checkpoint, fallback, .. } => followed(
                disk,
                first_intact(disk, Some(checkpoint), fallback),
            ),
            Phase::Replay { recovered, probe } => Ok(replayed_from(disk, recovered, probe)),
            Phase::Clear { recovered, index } => Ok(recovered),
        }
    }
}

/// The bytes with which `disk` answers `request`.
pub open spec fn answer(disk: Disk, request: Req) -> Seq<u8> {
    match request.op {
        Op::Read { block, blocks } => joined(disk.subrange(block, block + blocks)),
        _ => Seq::empty(),
    }
}

/// One block is answered as it stands.
pub proof fn lemma_answer_block(disk: Disk, block: int)
    requires
        0 <= block < disk.len(),
    ensures
        joined(disk.subrange(block, block + 1)) == disk[block],
{
    let blocks = disk.subrange(block, block + 1);
    assert(blocks.drop_last() =~= Seq::<Seq<u8>>::empty());
    assert(joined(blocks) =~= disk[block]) by {
        assert(joined(Seq::<Seq<u8>>::empty()) =~= Seq::<u8>::empty());
    }
}

/// The first two blocks are answered one after the other.
pub proof fn lemma_answer_pair(disk: Disk)
    requires
        backing_wf(disk),
    ensures
        joined(disk.subrange(0, 2)).len() == 8192,
        joined(disk.subrange(0, 2)).take(4096) == disk[0],
        joined(disk.subrange(0, 2)).skip(4096) == disk[1],
{
    let blocks = disk.subrange(0, 2);
    assert(blocks.drop_last() =~= disk.subrange(0, 1));
    lemma_answer_block(disk, 0);
    assert(joined(blocks) == disk[0] + disk[1]);
    assert(joined(blocks).take(4096) =~= disk[0]);
    assert(joined(blocks).skip(4096) =~= disk[1]);
}

/// Turning to a checkpoint keeps what opening will find.
proof fn lemma_trying(
    view: OpeningView,
    disk: Disk,
    first: Option<Checkpoint>,
    second: Option<Checkpoint>,
)
    requires
        view.wf(),
        backing_wf(disk),
        view.backing_bytes == 4096 * disk.len(),
        first matches Some(checkpoint) ==> checkpoint.coherent() && checkpoint.backing_blocks
            == disk.len(),
        second matches Some(checkpoint) ==> checkpoint.coherent() && checkpoint.backing_blocks
            == disk.len(),
    ensures
        match view.trying(first, second) {
            OpenStepView::Perform(next) => {
                &&& next.wf()
                &&& next.faithful(disk)
                &&& next.outcome(disk) == followed(disk, first_intact(disk, first, second))
            },
            OpenStepView::Opened(_) => false,
            OpenStepView::Failed(error) => followed(disk, first_intact(disk, first, second))
                == Err::<Recovered, StorageError>(error),
        },
{
    if let Some(checkpoint) = first {
        law_layout_regions_are_adjacent(checkpoint.volume_blocks as int);
        let body = body_on(disk, checkpoint);
        assert(body.take(0) =~= Seq::<Seq<u8>>::empty());
        assert(physical_from(body, 0) =~= Seq::<u32>::empty());
        assert(checksums_from(body, checkpoint.layout.physical_map_blocks as int, 0) =~= Seq::<
            u64,
        >::empty());
    }
}

/// One more body block keeps what has been read faithful to the disk.
proof fn lemma_body_step(view: OpeningView, disk: Disk)
    requires
        view.wf(),
        backing_wf(disk),
        view.faithful(disk),
        view.phase is Body,
    ensures
        match view.phase {
            Phase::Body { checkpoint, fallback, index, fed, physical, checksums } => {
                let body = body_on(disk, checkpoint);
                let bytes = disk[checkpoint.body_start() + index];
                let total = checkpoint.volume_blocks as int;
                let first = checkpoint.layout.physical_map_blocks as int;
                &&& bytes.len() == 4096
                &&& answer(disk, view.request()) == bytes
                &&& fed + bytes == joined(body.take(index + 1))
                &&& index < first ==> {
                    let more = physical_extended(physical, bytes, total);
                    &&& more == physical_from(body, more.len())
                    &&& more.len() == (if 1024 * (index + 1) < total {
                        1024 * (index + 1)
                    } else {
                        total
                    })
                }
                &&& index >= first ==> {
                    let more = checksums_extended(checksums, bytes, total);
                    &&& more == checksums_from(body, first, more.len())
                    &&& more.len() == (if 512 * (index + 1 - first) < total {
                        512 * (index + 1 - first)
                    } else {
                        total
                    })
                }
            },
            _ => true,
        },
{
    if let Phase::Body { checkpoint, fallback, index, fed, physical, checksums } = view.phase {
        law_layout_regions_are_adjacent(checkpoint.volume_blocks as int);
        let body = body_on(disk, checkpoint);
        let at = checkpoint.body_start() + index;
        let total = checkpoint.volume_blocks as int;
        let first = checkpoint.layout.physical_map_blocks as int;
        lemma_answer_block(disk, at);
        assert(body[index] == disk[at]);
        lemma_joined_push(body, index);
        if index < first {
            let more = physical_extended(physical, disk[at], total);
            assert forall|x: int| 0 <= x < more.len() implies more[x] == #[trigger] physical_from(
                body,
                more.len(),
            )[x] by {
                if x < physical.len() {
                    assert(physical[x] == physical_from(body, physical.len())[x]);
                } else {
                    assert(x / 1024 == index && x % 1024 == x - physical.len());
                }
            }
            assert(more =~= physical_from(body, more.len()));
        } else {
            let more = checksums_extended(checksums, disk[at], total);
            assert forall|x: int| 0 <= x < more.len() implies more[x] == #[trigger] checksums_from(
                body,
                first,
                more.len(),
            )[x] by {
                if x < checksums.len() {
                    assert(checksums[x] == checksums_from(body, first, checksums.len())[x]);
                } else {
                    assert(x / 512 == index - first && x % 512 == x - checksums.len());
                }
            }
            assert(more =~= checksums_from(body, first, more.len()));
        }
    }
}

/// Applying writes inside a map keeps its length.
pub proof fn lemma_after_len(
    physical: Seq<u32>,
    checksums: Seq<u64>,
    writes: Seq<RecoveredWrite>,
)
    requires
        physical.len() == checksums.len(),
        forall|i: int| 0 <= i < writes.len() ==> (#[trigger] writes[i]).lba < physical.len(),
    ensures
        physical_after(physical, writes).len() == physical.len(),
        checksums_after(checksums, writes).len() == checksums.len(),
    decreases writes.len(),
{
    if writes.len() > 0 {
        lemma_after_len(physical, checksums, writes.drop_last());
    }
}

/// A valid record extends a sound mapping to a sound mapping.
pub proof fn lemma_extended_wf(recovered: Recovered, footer: Seq<u8>, footer_block: u32)
    requires
        recovered.wf(),
        valid_footer(footer, recovered.cursor, footer_block),
        footer_block < recovered.cursor.backing_blocks,
    ensures
        recovered.extended(footer, footer_block).wf(),
{
    let writes = footer_writes(footer, recovered.cursor, footer_block);
    assert forall|i: int| 0 <= i < writes.len() implies (#[trigger] writes[i]).lba
        < recovered.physical.len() by {
        assert(lba_at(footer, i) < recovered.cursor.volume_blocks);
    }
    lemma_after_len(recovered.physical, recovered.checksums, writes);
}

/// Law: each step of opening keeps what opening will find, as long as the replies are what the
/// disk holds; so the volume that is opened, or the error, is the one that the disk determines.
#[verifier::spinoff_prover]
#[verifier::rlimit(60)]
pub proof fn law_open_step_keeps_outcome(view: OpeningView, disk: Disk)
    requires
        view.wf(),
        backing_wf(disk),
        view.faithful(disk),
    ensures
        match view.next(Ok(answer(disk, view.request()))) {
            OpenStepView::Perform(next) => {
                &&& next.wf()
                &&& next.faithful(disk)
                &&& next.outcome(disk) == view.outcome(disk)
            },
            OpenStepView::Opened(state) => view.outcome(disk) matches Ok(recovered) && state
                == recovered.state(view.options),
            OpenStepView::Failed(error) => view.outcome(disk) == Err::<Recovered, StorageError>(
                error,
            ),
        },
{
    match view.phase {
        Phase::Descriptors => {
            lemma_answer_pair(disk);
            let green = checkpoint_on(disk, CheckpointSlot::Green);
            let blue = checkpoint_on(disk, CheckpointSlot::Blue);
            if roots_refusal(green, blue) is None {
                lemma_trying(view, disk, candidates(green, blue).0, candidates(green, blue).1);
            }
        },
        Phase::Body { checkpoint, fallback, index, fed, physical, checksums } => {
            lemma_body_step(view, disk);
            law_layout_regions_are_adjacent(checkpoint.volume_blocks as int);
            let body = body_on(disk, checkpoint);
            if index + 1 == checkpoint.body_blocks() {
                assert(body.take(index + 1) =~= body);
                if intact(disk, checkpoint) {
                    let bytes = disk[checkpoint.body_start() + index];
                    let more = checksums_extended(
                        checksums,
                        bytes,
                        checkpoint.volume_blocks as int,
                    );
                    assert(at_root(checkpoint, physical, more) == root_on(disk, checkpoint));
                } else {
                    lemma_trying(view, disk, fallback, None);
                }
            }
        },
        Phase::Replay { recovered, probe } => {
            reveal_with_fuel(scan, 2);
            reveal_with_fuel(replayed_from, 2);
            lemma_answer_block(disk, probe);
            let bytes = disk[probe];
            if valid_footer(bytes, recovered.cursor, probe as u32) {
                lemma_extended_wf(recovered, bytes, probe as u32);
            }
        },
        Phase::Clear { recovered, index } => {},
    }
}

impl OpeningView {
    /// An upper bound on the requests that opening still makes after the outstanding one.
    pub open spec fn steps_left(self) -> int {
        match self.phase {
            Phase::Descriptors => 0x200_0000_0000,
            Phase::Body { checkpoint, fallback, index, .. } => {
                0x1a0_0000_0000 + checkpoint.body_blocks() - index + (if fallback is Some {
                    0x100_0000int
                } else {
                    0
                })
            },
            Phase::Replay { recovered, probe } => 400 + 400 * (recovered.cursor.backing_blocks
                - recovered.cursor.last_footer_block) + recovered.footer_limit() - probe,
            Phase::Clear { recovered, index } => recovered.clear_blocks() - index,
        }
    }
}

/// Law: opening ends: every request brings it closer to its end, whatever the reply.
pub proof fn law_opening_makes_progress(view: OpeningView, reply: Result<Seq<u8>, IoFailure>)
    requires
        view.wf(),
    ensures
        0 <= view.steps_left() <= 0x200_0000_0000,
        view.next(reply) matches OpenStepView::Perform(next) ==> next.wf() && next.steps_left()
            < view.steps_left(),
{
    match view.phase {
        Phase::Descriptors => {
            if let Ok(bytes) = reply {
                let green = decoded_checkpoint(
                    bytes.take(4096),
                    CheckpointSlot::Green,
                    view.backing_bytes,
                );
                let blue = decoded_checkpoint(
                    bytes.skip(4096),
                    CheckpointSlot::Blue,
                    view.backing_bytes,
                );
                if let Some(checkpoint) = green {
                    law_layout_regions_are_adjacent(checkpoint.volume_blocks as int);
                }
                if let Some(checkpoint) = blue {
                    law_layout_regions_are_adjacent(checkpoint.volume_blocks as int);
                }
            }
        },
        Phase::Body { checkpoint, fallback, index, fed, physical, checksums } => {
            law_layout_regions_are_adjacent(checkpoint.volume_blocks as int);
            if let Some(other) = fallback {
                law_layout_regions_are_adjacent(other.volume_blocks as int);
            }
        },
        Phase::Replay { recovered, probe } => {
            if let Ok(bytes) = reply {
                if valid_footer(bytes, recovered.cursor, probe as u32) {
                    lemma_extended_wf(recovered, bytes, probe as u32);
                }
            }
        },
        Phase::Clear { recovered, index } => {},
    }
}

/// Law: opening starts from the newest checkpoint whose body is intact, and fails only where the
/// two descriptors contradict each other or no checkpoint has its body.
pub proof fn law_newest_intact_checkpoint_is_selected(disk: Disk, slot: CheckpointSlot)
    ensures
        selected(disk) matches Ok(root) ==> {
            &&& checkpoint_on(disk, root.slot) == Some(root)
            &&& intact(disk, root)
            &&& checkpoint_on(disk, slot) matches Some(other) ==> (intact(disk, other)
                ==> other.checkpoint_lsn <= root.checkpoint_lsn)
        },
        ({
            let mine = checkpoint_on(disk, slot);
            let other = checkpoint_on(disk, slot.other());
            let contradict = mine matches Some(a) && (other matches Some(b) && (a.volume_id
                != b.volume_id || a.volume_blocks != b.volume_blocks || (a.checkpoint_lsn
                == b.checkpoint_lsn && (a.last_footer_block != b.last_footer_block
                || a.body_checksum != b.body_checksum))));
            let usable = (mine matches Some(a) && intact(disk, a)) || (other matches Some(b)
                && intact(disk, b));
            selected(disk) is Ok <==> !contradict && usable
        }),
        forall|checkpoint: Checkpoint|
            checkpoint.checkpoint_lsn == 0 ==> #[trigger] intact(disk, checkpoint),
        forall|checkpoint: Checkpoint|
            checkpoint.checkpoint_lsn > 0 ==> (#[trigger] intact(disk, checkpoint) <==> xxh3_digest(
                0,
                joined(
                    disk.subrange(
                        checkpoint.body_start(),
                        checkpoint.body_start() + checkpoint.body_blocks(),
                    ),
                ),
            ) == checkpoint.body_checksum),
{
}

/// Law: replay follows the chain of records as far as it goes: what is found behind the last
/// record that it gives is no record that continues it, within the reach of the greatest one, and
/// a record that does continue it is never passed over for a later one.
pub proof fn law_replay_stops_at_the_first_gap(disk: Disk, recovered: Recovered, block: int)
    requires
        recovered.wf(),
        ({
            let end = replayed(disk, recovered);
            &&& end.cursor.last_footer_block + 2 <= block < end.cursor.backing_blocks
            &&& block <= end.cursor.last_footer_block + 339
        }),
    ensures
        !valid_footer(disk[block], replayed(disk, recovered).cursor, block as u32),
{
    lemma_replay(disk, recovered);
    let end = replayed(disk, recovered);
    lemma_scan(disk, end, end.cursor.last_footer_block + 2);
}

/// Every block before the first that ends a record does not end one.
pub proof fn lemma_scan(disk: Disk, recovered: Recovered, from: int)
    ensures
        match scan(disk, recovered, from) {
            Some(found) => {
                &&& from <= found <= recovered.footer_limit()
                &&& valid_footer(disk[found], recovered.cursor, found as u32)
            },
            None => forall|i: int|
                from <= i <= recovered.footer_limit() ==> !valid_footer(
                    #[trigger] disk[i],
                    recovered.cursor,
                    i as u32,
                ),
        },
    decreases recovered.footer_limit() - from + 1,
{
    if from <= recovered.footer_limit() && !valid_footer(
        disk[from],
        recovered.cursor,
        from as u32,
    ) {
        lemma_scan(disk, recovered, from + 1);
    }
}

/// Where no block ends a record, the search finds none.
pub proof fn lemma_scan_none(disk: Disk, recovered: Recovered, from: int)
    requires
        forall|i: int|
            from <= i <= recovered.footer_limit() ==> !valid_footer(
                #[trigger] disk[i],
                recovered.cursor,
                i as u32,
            ),
    ensures
        scan(disk, recovered, from) is None,
    decreases recovered.footer_limit() - from + 1,
{
    if from <= recovered.footer_limit() {
        assert(!valid_footer(disk[from], recovered.cursor, from as u32));
        lemma_scan_none(disk, recovered, from + 1);
    }
}

/// A search that finds a record looks no further.
pub proof fn lemma_scan_frame(left: Disk, right: Disk, recovered: Recovered, from: int)
    requires
        scan(left, recovered, from) is Some,
        forall|i: int|
            from <= i <= scan(left, recovered, from)->0 ==> left[i] == #[trigger] right[i],
    ensures
        scan(right, recovered, from) == scan(left, recovered, from),
    decreases recovered.footer_limit() - from + 1,
{
    lemma_scan(left, recovered, from);
    assert(left[from] == right[from]);
    if !valid_footer(left[from], recovered.cursor, from as u32) {
        lemma_scan_frame(left, right, recovered, from + 1);
    }
}

/// Replay goes forward, stays in the volume, and ends where no record follows.
pub proof fn lemma_replay(disk: Disk, recovered: Recovered)
    requires
        recovered.wf(),
    ensures
        ({
            let end = replayed(disk, recovered);
            &&& end.wf()
            &&& end.root == recovered.root
            &&& recovered.cursor.last_footer_block <= end.cursor.last_footer_block
            &&& scan(disk, end, end.cursor.last_footer_block + 2) is None
        }),
    decreases recovered.cursor.backing_blocks - recovered.cursor.last_footer_block,
{
    let from = recovered.cursor.last_footer_block + 2;
    lemma_scan(disk, recovered, from);
    if let Some(found) = scan(disk, recovered, from) {
        lemma_extended_wf(recovered, disk[found], found as u32);
        lemma_replay(disk, recovered.extended(disk[found], found as u32));
    }
}

/// Replay depends only on the blocks up to where it ends: on a disk that agrees there, it goes
/// on from that end.
pub proof fn lemma_replay_frame(left: Disk, right: Disk, recovered: Recovered)
    requires
        recovered.wf(),
        ({
            let end = replayed(left, recovered);
            forall|i: int|
                recovered.cursor.last_footer_block < i <= end.cursor.last_footer_block ==> left[i]
                    == #[trigger] right[i]
        }),
    ensures
        replayed(right, recovered) == replayed(right, replayed(left, recovered)),
    decreases recovered.cursor.backing_blocks - recovered.cursor.last_footer_block,
{
    let from = recovered.cursor.last_footer_block + 2;
    lemma_scan(left, recovered, from);
    if let Some(found) = scan(left, recovered, from) {
        let next = recovered.extended(left[found], found as u32);
        lemma_extended_wf(recovered, left[found], found as u32);
        lemma_replay(left, next);
        assert(left[found] == right[found]);
        lemma_scan_frame(left, right, recovered, from);
        lemma_replay_frame(left, right, next);
    }
}

} // verus!
