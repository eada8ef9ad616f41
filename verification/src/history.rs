//! Everything that can happen to a volume from the moment it is made: operations, one request at
//! a time, and crashes.

#[allow(unused_imports)]
use crate::bytes::zeros;
#[allow(unused_imports)]
use crate::checksum::payload_checksum_of;
#[allow(unused_imports)]
use crate::crash::{
    after_writes, can_append, kept, law_checkpoint_keeps_the_volume_sound,
    law_crash_leaves_a_prefix, law_formatted_volume_is_sound, lemma_after_writes, lemma_kept,
    lemma_mapping_kept, lemma_record_block, may_leave, misled, record_block, settled, sound,
};
#[allow(unused_imports)]
use crate::descriptor::{Checkpoint, CheckpointSlot};
#[allow(unused_imports)]
use crate::device::{
    disk_wf, lemma_written_block, lemma_written_pair, performed, performed_all, Disk,
};
#[allow(unused_imports)]
use crate::durability::{
    anchored, clear_ahead, cleared, content, during_checkpoint, image_of,
    law_checkpoint_can_be_cut_short, law_opened_volume_is_anchored,
    law_operations_keep_the_volume_sound, law_recovery_gives_back_the_volume,
    law_spare_slot_can_be_lost, lemma_during_checkpoint, lemma_during_checkpoint_step,
    lemma_during_checkpoint_wf, lemma_selected, record_follows, spare,
};
#[allow(unused_imports)]
use crate::error::{IoFailure, StorageError};
#[allow(unused_imports)]
use crate::layout::{law_layout_regions_are_adjacent, layout_of, valid_volume_blocks};
#[allow(unused_imports)]
use crate::recovery::{format_requests, initial_checkpoint};
#[allow(unused_imports)]
use crate::replay::{
    answer, backing_wf, checkpoint_on, lemma_answer_block, recovered_from, root_on, selected,
};
#[allow(unused_imports)]
use crate::volume::{State, StepView, VolumeOpenOptions, Work};
use vstd::prelude::*;

verus! {

/// Which of the first `count` writes of `log` is the last to name `lba`.
pub open spec fn last_write(log: Seq<(u32, Seq<u8>)>, count: int, lba: int) -> Option<int>
    decreases count,
{
    if count <= 0 {
        None
    } else if log[count - 1].0 == lba {
        Some(count - 1)
    } else {
        last_write(log, count - 1, lba)
    }
}

/// What `lba` has to hold after the first `count` writes of `log`.
pub open spec fn value(log: Seq<(u32, Seq<u8>)>, count: int, lba: int) -> Seq<u8> {
    match last_write(log, count, lba) {
        Some(index) => log[index].1,
        None => zeros(4096),
    }
}

/// Whether the mapping of `state` is that of the first `count` writes of `log`: a block that was
/// not written is not mapped, and any other carries the checksum of what was written to it last.
pub open spec fn mapped(state: State, log: Seq<(u32, Seq<u8>)>, count: int) -> bool {
    forall|lba: int|
        0 <= lba < state.volume_blocks ==> match last_write(log, count, lba) {
            None => #[trigger] state.physical_blocks[lba] == 0,
            Some(index) => {
                &&& state.layout().log_start <= state.physical_blocks[lba]
                    <= state.last_footer_block
                &&& state.checksums[lba] == payload_checksum_of(
                    state.volume_id,
                    lba as u32,
                    state.physical_blocks[lba],
                    log[index].1,
                )
            },
        }
}

/// A volume in use, what its backing holds, and how it came there.
pub ghost struct Run {
    /// What the backing is sure to hold: all that was written before the last completed sync.
    pub durable: Disk,
    /// What the backing holds if nothing is lost.
    pub current: Disk,
    pub state: State,
    pub work: Work,
    /// The volume at the last completed sync.
    pub base: State,
    /// The writes that were published, from the making of the volume on.
    pub log: Seq<(u32, Seq<u8>)>,
    /// How many of them were published before the last completed sync.
    pub safe: int,
    /// The logical blocks whose payload a crash had lost at the last completed sync.
    pub torn: Set<int>,
}

/// What can happen.
pub ghost enum Event {
    /// A write begins.
    Write { lba: u32, data: Seq<u8> },
    /// A read begins.
    Read { lba: u32 },
    /// A flush begins.
    Flush,
    /// A checkpoint of a changed volume begins.
    Checkpoint,
    /// The volume is being closed.
    Close,
    /// The outstanding request succeeds.
    Complete,
    /// The volume is abandoned, after a crash or a failed request, and opened again from what is
    /// left of its backing.
    Crash { left: Disk, options: VolumeOpenOptions },
}

impl Run {
    /// The volume that was just opened, after the writes of `log`.
    pub open spec fn opened(
        disk: Disk,
        options: VolumeOpenOptions,
        log: Seq<(u32, Seq<u8>)>,
    ) -> Run {
        let found = recovered_from(disk)->Ok_0;
        let state = found.state(options);
        let opened = cleared(disk, found, found.clear_blocks());
        Run {
            durable: opened,
            current: opened,
            state,
            work: Work::Idle,
            base: state,
            log,
            safe: log.len() as int,
            torn: Set::new(
                |lba: int|
                    0 <= lba < state.volume_blocks && content(opened, state, lba) != value(
                        log,
                        log.len() as int,
                        lba,
                    ),
            ),
        }
    }

    /// The writes that were published since the last completed sync.
    pub open spec fn recent(self) -> Seq<(u32, Seq<u8>)> {
        self.log.skip(self.safe)
    }

    /// The writes that may be on the backing: those that were published, and the one whose record
    /// is being written.
    pub open spec fn attempted(self) -> Seq<(u32, Seq<u8>)> {
        match self.work {
            Work::Record { lba, data } => self.log.push((lba, data)),
            _ => self.log,
        }
    }

    /// Whether a checkpoint is under way that has made the log durable.
    pub open spec fn in_checkpoint(self) -> bool {
        self.work matches Work::Checkpoint { position, .. } && position >= 1
    }

    /// What the backing holds when the outstanding request has been carried out.
    pub open spec fn carried_out(self) -> Disk {
        performed(self.current, self.state.outstanding(self.work))
    }

    /// Whether `left` can be what a crash leaves: anything, lost, torn or whole, in the blocks that
    /// were written since the last completed sync or are being written, and elsewhere what was
    /// durable. A descriptor that is torn is no descriptor.
    pub open spec fn may_become(self, left: Disk) -> bool {
        let slot = self.state.next_checkpoint_slot;
        let at = slot.number() as int;
        &&& disk_wf(left)
        &&& left.len() == self.durable.len()
        &&& forall|i: int|
            0 <= i < left.len() && self.current[i] == self.durable[i] && self.carried_out()[i]
                == self.durable[i] ==> #[trigger] left[i] == self.durable[i]
        &&& {
            ||| left[at] == self.durable[at]
            ||| left[at] == self.carried_out()[at]
            ||| checkpoint_on(left, slot) is None
        }
    }

    /// How many writes are still there after a crash left `left`.
    pub open spec fn surviving(self, left: Disk) -> int {
        if self.in_checkpoint() {
            self.log.len() as int
        } else {
            self.safe + kept(self.base, self.attempted().skip(self.safe), left)
        }
    }

    /// Whether `event` can happen. A crash that lost a footer and left a block behind it that
    /// passes for the lost footer is left out.
    pub open spec fn can(self, event: Event) -> bool {
        match event {
            Event::Write { lba, data } => self.work is Idle && self.state.write_refusal(lba) is None
                && data.len() == 4096,
            Event::Read { lba } => self.work is Idle && self.state.read_refusal(lba) is None
                && self.state.physical_blocks[lba as int] != 0,
            Event::Flush => self.work is Idle,
            Event::Checkpoint => self.work is Idle && self.state.checkpoint_lsn
                < self.state.last_lsn,
            Event::Close => self.work is Idle,
            Event::Complete => !(self.work is Idle),
            Event::Crash { left, options } => {
                &&& self.may_become(left)
                &&& options.valid()
                &&& !self.in_checkpoint() ==> !misled(
                    self.base,
                    self.attempted().skip(self.safe),
                    left,
                    selected(self.durable)->Ok_0,
                )
            },
        }
    }

    /// After the outstanding request succeeded.
    pub open spec fn completed(self) -> Run {
        let request = self.state.outstanding(self.work);
        let next = self.state.next(self.work, Ok(answer(self.current, request)));
        let current = performed(self.current, request);
        let recent = self.recent();
        if request.op is Sync {
            Run {
                durable: current,
                current,
                state: next.0,
                work: next.1,
                base: next.0,
                log: self.log,
                safe: self.log.len() as int,
                torn: Set::new(
                    |lba: int|
                        self.torn.contains(lba) && last_write(recent, recent.len() as int, lba)
                            is None,
                ),
            }
        } else {
            Run { current, state: next.0, work: next.1, log: self.attempted(), ..self }
        }
    }

    /// After `event`.
    pub open spec fn after(self, event: Event) -> Run {
        match event {
            Event::Write { lba, data } => Run { work: self.state.write_work(lba, data), ..self },
            Event::Read { lba } => Run { work: Work::Read { lba }, ..self },
            Event::Flush => Run { work: Work::Flush, ..self },
            Event::Checkpoint => Run {
                work: Work::Checkpoint { position: 0, write: None },
                ..self
            },
            Event::Close => Run { work: self.state.close_work(), ..self },
            Event::Complete => self.completed(),
            Event::Crash { left, options } => Run::opened(
                left,
                options,
                self.attempted().take(self.surviving(left)),
            ),
        }
    }

    /// What the backing holds while no checkpoint is being written: the records that were
    /// published behind what is durable, and zeros behind them.
    pub open spec fn logged(self) -> bool {
        &&& disk_wf(self.current)
        &&& self.current.len() == self.durable.len()
        &&& can_append(self.base, self.recent())
        &&& self.state == after_writes(self.base, self.recent(), self.recent().len() as int)
        &&& forall|i: int|
            0 <= i <= self.state.cleared_to ==> #[trigger] self.current[i] == (if
                self.base.last_footer_block < i <= self.state.last_footer_block {
                record_block(self.base, self.recent(), i)
            } else {
                self.durable[i]
            })
        &&& self.work matches Work::Clear { position, .. } ==> forall|i: int|
            self.state.cleared_to < i <= self.state.cleared_to + position && i
                <= self.state.cleared_to + self.state.clear_len() ==> #[trigger] self.current[i]
                == zeros(4096)
        &&& self.work is Checkpoint ==> self.state.checkpoint_lsn < self.state.last_lsn
    }

    /// What the backing holds while a checkpoint is being written.
    pub open spec fn checkpointing(self) -> bool {
        &&& self.safe == self.log.len()
        &&& self.state == self.base
        &&& self.state.checkpoint_lsn < self.state.last_lsn
        &&& self.work matches Work::Checkpoint { position, .. } && {
            &&& self.current == during_checkpoint(self.durable, self.state, position)
            &&& position >= self.state.body_blocks() + 2 ==> self.durable == during_checkpoint(
                self.durable,
                self.state,
                self.state.body_blocks() + 2,
            )
        }
    }

    /// What holds at every moment.
    pub open spec fn holds(self) -> bool {
        &&& self.state.wf()
        &&& !self.state.failed
        &&& self.state.allows(self.work)
        &&& sound(self.durable, self.base)
        &&& settled(self.durable)
        &&& self.base.last_lsn == self.safe
        &&& 0 <= self.safe <= self.log.len()
        &&& mapped(self.base, self.log, self.safe)
        &&& forall|lba: int|
            0 <= lba < self.base.volume_blocks && !self.torn.contains(lba) ==> #[trigger] content(
                self.durable,
                self.base,
                lba,
            ) == value(self.log, self.safe, lba)
        &&& if self.in_checkpoint() {
            self.checkpointing()
        } else {
            self.logged()
        }
    }
}

/// The last write that names `lba` depends on the writes alone that are looked at.
proof fn lemma_last_write(
    left: Seq<(u32, Seq<u8>)>,
    right: Seq<(u32, Seq<u8>)>,
    count: int,
    lba: int,
)
    requires
        0 <= count <= left.len(),
        count <= right.len(),
        forall|i: int| 0 <= i < count ==> left[i] == #[trigger] right[i],
    ensures
        last_write(left, count, lba) == last_write(right, count, lba),
        last_write(left, count, lba) matches Some(index) ==> 0 <= index < count && left[index].0
            == lba,
        value(left, count, lba) == value(right, count, lba),
    decreases count,
{
    if count > 0 {
        assert(left[count - 1] == right[count - 1]);
        lemma_last_write(left, right, count - 1, lba);
    }
}

/// Looking at the last part of a log first.
proof fn lemma_last_write_from(log: Seq<(u32, Seq<u8>)>, safe: int, count: int, lba: int)
    requires
        0 <= safe,
        0 <= count,
        safe + count <= log.len(),
    ensures
        last_write(log, safe + count, lba) == (match last_write(log.skip(safe), count, lba) {
            Some(index) => Some(safe + index),
            None => last_write(log, safe, lba),
        }),
        match last_write(log.skip(safe), count, lba) {
            Some(index) => 0 <= index < count && log[safe + index].0 == lba && forall|i: int|
                index < i < count ==> (#[trigger] log.skip(safe)[i]).0 != lba,
            None => forall|i: int| 0 <= i < count ==> (#[trigger] log.skip(safe)[i]).0 != lba,
        },
    decreases count,
{
    if count > 0 {
        assert(log.skip(safe)[count - 1] == log[safe + count - 1]);
        lemma_last_write_from(log, safe, count - 1, lba);
    }
}

/// The mapping after some more writes.
proof fn lemma_mapped(state: State, log: Seq<(u32, Seq<u8>)>, safe: int, count: int)
    requires
        state.wf(),
        0 <= safe,
        0 <= count,
        safe + count <= log.len(),
        can_append(state, log.skip(safe)),
        mapped(state, log, safe),
    ensures
        mapped(after_writes(state, log.skip(safe), count), log, safe + count),
    decreases count,
{
    if count > 0 {
        let recent = log.skip(safe);
        lemma_mapped(state, log, safe, count - 1);
        lemma_after_writes(state, recent, count - 1);
        lemma_after_writes(state, recent, count);
        let before = after_writes(state, recent, count - 1);
        let there = after_writes(state, recent, count);
        let (lba, data) = recent[count - 1];
        assert(log[safe + count - 1] == recent[count - 1]);
        assert(before.allows(Work::Record { lba, data }));
        assert forall|other: int| 0 <= other < there.volume_blocks implies match last_write(
            log,
            safe + count,
            other,
        ) {
            None => #[trigger] there.physical_blocks[other] == 0,
            Some(index) => {
                &&& there.layout().log_start <= there.physical_blocks[other]
                    <= there.last_footer_block
                &&& there.checksums[other] == payload_checksum_of(
                    there.volume_id,
                    other as u32,
                    there.physical_blocks[other],
                    log[index].1,
                )
            },
        } by {
            let old = before.physical_blocks[other];
        }
    }
}

/// What a logical block holds after some writes: what it held, if none of them names it, and what
/// stands in the place of the last payload otherwise.
proof fn lemma_content(
    disk: Disk,
    state: State,
    log: Seq<(u32, Seq<u8>)>,
    safe: int,
    count: int,
    left: Disk,
    lba: int,
)
    requires
        state.wf(),
        0 <= safe,
        0 <= count,
        safe + count <= log.len(),
        can_append(state, log.skip(safe)),
        mapped(state, log, safe),
        forall|i: int| 0 <= i <= state.last_footer_block ==> disk[i] == #[trigger] left[i],
        0 <= lba < state.volume_blocks,
    ensures
        ({
            let there = after_writes(state, log.skip(safe), count);
            match last_write(log.skip(safe), count, lba) {
                None => {
                    &&& content(left, there, lba) == content(disk, state, lba)
                    &&& value(log, safe + count, lba) == value(log, safe, lba)
                },
                Some(index) => {
                    &&& content(left, there, lba) == left[state.last_footer_block + 2 * index + 1]
                    &&& value(log, safe + count, lba) == log[safe + index].1
                },
            }
        }),
{
    let recent = log.skip(safe);
    let there = after_writes(state, recent, count);
    lemma_last_write_from(log, safe, count, lba);
    lemma_after_writes(state, recent, count);
    match last_write(recent, count, lba) {
        None => {
            lemma_mapping_kept(state, recent, 0, count, lba);
            lemma_last_write(log, log, safe, lba);
            assert(there.physical_blocks[lba] == state.physical_blocks[lba]);
            let at = state.physical_blocks[lba] as int;
            assert(at <= state.last_footer_block);
            assert(disk[at] == left[at]);
        },
        Some(index) => {
            let before = after_writes(state, recent, index);
            lemma_after_writes(state, recent, index);
            lemma_after_writes(state, recent, index + 1);
            assert(recent[index] == log[safe + index]);
            assert(before.allows(Work::Record { lba: recent[index].0, data: recent[index].1 }));
            lemma_mapping_kept(state, recent, index + 1, count, lba);
            assert(there.physical_blocks[lba] == state.last_footer_block + 2 * index + 1);
        },
    }
}

/// While no checkpoint is being written, what was written since the last sync leaves the backing
/// of the volume as it is now.
#[verifier::spinoff_prover]
#[verifier::rlimit(40)]
pub proof fn lemma_logged(run: Run)
    requires
        run.holds(),
        !run.in_checkpoint(),
    ensures
        sound(run.current, run.state),
        settled(run.current),
        run.state.last_lsn == run.log.len(),
        mapped(run.state, run.log, run.log.len() as int),
        forall|lba: int|
            0 <= lba < run.state.volume_blocks && (!run.torn.contains(lba) || last_write(
                run.recent(),
                run.recent().len() as int,
                lba,
            ) is Some) ==> #[trigger] content(run.current, run.state, lba) == value(
                run.log,
                run.log.len() as int,
                lba,
            ),
        forall|i: int|
            0 <= i <= run.base.last_footer_block ==> run.durable[i] == #[trigger] run.current[i],
        run.state.volume_blocks == run.base.volume_blocks,
        run.state.backing_blocks == run.base.backing_blocks,
        run.state.cleared_to == run.base.cleared_to,
        run.state.last_footer_block == run.base.last_footer_block + 2 * run.recent().len(),
        run.state.last_footer_block <= run.state.cleared_to,
{
    let recent = run.recent();
    let count = recent.len() as int;
    let root = selected(run.durable)->Ok_0;
    lemma_after_writes(run.base, recent, count);
    assert(may_leave(run.durable, run.base, recent, run.current)) by {
        assert forall|i: int|
            0 <= i <= run.base.cleared_to && !(run.base.last_footer_block < i
                <= run.base.last_footer_block + 2 * recent.len()) implies #[trigger] run.current[i]
            == run.durable[i] by {}
    }
    assert(kept(run.base, recent, run.current) == count) by {
        lemma_kept(run.base, recent, run.current, 0);
        let end = kept(run.base, recent, run.current);
        if end < count {
            let block = run.base.last_footer_block + 2 * end + 2;
            assert((block - run.base.last_footer_block - 1) / 2 == end);
            assert((block - run.base.last_footer_block - 1) % 2 == 1);
            assert(run.current[block] == record_block(run.base, recent, block));
        }
    }
    law_crash_leaves_a_prefix(run.durable, run.base, recent, run.current);
    assert(clear_ahead(run.current, run.state)) by {
        assert forall|i: int| run.state.last_footer_block < i <= run.state.cleared_to implies
            #[trigger] run.current[i] == zeros(4096) by {
            assert(run.current[i] == run.durable[i]);
        }
    }
    lemma_mapped(run.base, run.log, run.safe, count);
    assert forall|lba: int|
        0 <= lba < run.state.volume_blocks && (!run.torn.contains(lba) || last_write(
            recent,
            count,
            lba,
        ) is Some) implies #[trigger] content(run.current, run.state, lba) == value(
        run.log,
        run.log.len() as int,
        lba,
    ) by {
        lemma_content(run.durable, run.base, run.log, run.safe, count, run.current, lba);
        lemma_last_write_from(run.log, run.safe, count, lba);
        if let Some(index) = last_write(recent, count, lba) {
            let block = run.base.last_footer_block + 2 * index + 1;
            assert((block - run.base.last_footer_block - 1) / 2 == index);
            assert((block - run.base.last_footer_block - 1) % 2 == 0);
            assert(run.current[block] == record_block(run.base, recent, block));
            assert(recent[index] == run.log[run.safe + index]);
        } else {
            assert(content(run.durable, run.base, lba) == value(run.log, run.safe, lba));
        }
    }
}

/// A completed sync keeps what holds, where the backing as it is now holds the volume as it is
/// after it.
proof fn lemma_sync(run: Run, after: Run)
    requires
        run.holds(),
        after == run.completed(),
        run.state.outstanding(run.work).op is Sync,
        sound(run.current, after.state),
        settled(run.current),
        after.state.last_lsn == run.log.len(),
        after.state.physical_blocks == run.state.physical_blocks,
        after.state.checksums == run.state.checksums,
        after.state.volume_id == run.state.volume_id,
        after.state.volume_blocks == run.state.volume_blocks,
        after.state.last_footer_block == run.state.last_footer_block,
        after.state.allows(after.work),
        mapped(run.state, run.log, run.log.len() as int),
        forall|lba: int|
            0 <= lba < run.state.volume_blocks && (!run.torn.contains(lba) || last_write(
                run.recent(),
                run.recent().len() as int,
                lba,
            ) is Some) ==> #[trigger] content(run.current, run.state, lba) == value(
                run.log,
                run.log.len() as int,
                lba,
            ),
        after.in_checkpoint() ==> after.checkpointing(),
        after.work is Checkpoint ==> after.in_checkpoint(),
        after.work matches Work::Clear { position, .. } ==> position == 0,
    ensures
        after.holds(),
{
    let count = run.log.len() as int;
    assert forall|lba: int| 0 <= lba < after.state.volume_blocks implies match last_write(
        run.log,
        count,
        lba,
    ) {
        None => #[trigger] after.state.physical_blocks[lba] == 0,
        Some(index) => {
            &&& after.state.layout().log_start <= after.state.physical_blocks[lba]
                <= after.state.last_footer_block
            &&& after.state.checksums[lba] == payload_checksum_of(
                after.state.volume_id,
                lba as u32,
                after.state.physical_blocks[lba],
                run.log[index].1,
            )
        },
    } by {
        assert(run.state.physical_blocks[lba] == after.state.physical_blocks[lba]);
    }
    assert forall|lba: int|
        0 <= lba < after.base.volume_blocks && !after.torn.contains(lba) implies #[trigger] content(
        after.durable,
        after.base,
        lba,
    ) == value(after.log, after.safe, lba) by {
        assert(content(after.durable, after.base, lba) == content(run.current, run.state, lba));
    }
    if !after.in_checkpoint() {
        assert(after.recent() =~= Seq::<(u32, Seq<u8>)>::empty());
        assert forall|i: int| 0 <= i <= after.state.cleared_to implies #[trigger] after.current[i]
            == (if after.base.last_footer_block < i <= after.state.last_footer_block {
            record_block(after.base, after.recent(), i)
        } else {
            after.durable[i]
        }) by {}
    }
}

/// What holds is kept when a request outside a checkpoint succeeds that is no sync.
#[verifier::spinoff_prover]
#[verifier::rlimit(40)]
proof fn lemma_complete_logged(run: Run)
    requires
        run.holds(),
        !run.in_checkpoint(),
        !(run.work is Idle),
    ensures
        run.completed().holds(),
{
    let after = run.completed();
    let request = run.state.outstanding(run.work);
    let reply = Ok::<Seq<u8>, IoFailure>(answer(run.current, request));
    law_layout_regions_are_adjacent(run.state.volume_blocks as int);
    law_operations_keep_the_volume_sound(run.state, run.work, reply);
    lemma_logged(run);
    let recent = run.recent();
    match run.work {
        Work::Read { lba } => {
            let at = run.state.physical_blocks[lba as int] as int;
            assert(mapped(run.state, run.log, run.log.len() as int));
            assert(at <= run.state.last_footer_block);
            lemma_answer_block(run.current, at);
            assert(run.current[at].len() == 4096);
            assert(after.recent() == recent);
        },
        Work::Record { lba, data } => {
            let root = selected(run.durable)->Ok_0;
            let footer = run.state.new_footer(lba, data);
            let more = recent.push((lba, data));
            assert(after.recent() =~= more);
            lemma_more_writes(run.base, recent, lba, data);
            lemma_record_block(run.base, more, run.state.last_footer_block + 2, root);
            assert(footer == record_block(run.base, more, run.state.last_footer_block + 2));
            lemma_written_pair(run.current, run.state.last_footer_block + 1, data, footer);
            assert forall|i: int| 0 <= i <= after.state.cleared_to implies
                #[trigger] after.current[i] == (if after.base.last_footer_block < i
                <= after.state.last_footer_block {
                record_block(after.base, more, i)
            } else {
                after.durable[i]
            }) by {
                if run.base.last_footer_block < i <= run.state.last_footer_block {
                    assert(run.current[i] == record_block(run.base, recent, i));
                    lemma_record_block_of_more(run.base, recent, lba, data, i);
                } else if i <= run.base.last_footer_block {
                    assert(run.current[i] == run.durable[i]);
                } else if i > after.state.last_footer_block {
                    assert(run.current[i] == run.durable[i]);
                }
            }
            assert forall|i: int| 0 <= i < after.current.len() implies (
            #[trigger] after.current[i]).len() == 4096 by {
                assert(run.current[i].len() == 4096);
            }
            assert(mapped(after.base, after.log, after.safe)) by {
                assert forall|other: int| 0 <= other < run.base.volume_blocks implies last_write(
                    after.log,
                    run.safe,
                    other,
                ) == last_write(run.log, run.safe, other) by {
                    lemma_last_write(after.log, run.log, run.safe, other);
                }
                lemma_mapped_of_more(run.base, run.log, run.safe, after.log);
            }
            assert forall|other: int|
                0 <= other < after.base.volume_blocks && !after.torn.contains(
                    other,
                ) implies #[trigger] content(after.durable, after.base, other) == value(
                after.log,
                after.safe,
                other,
            ) by {
                lemma_last_write(after.log, run.log, run.safe, other);
                assert(content(run.durable, run.base, other) == value(run.log, run.safe, other));
            }
        },
        Work::Clear { position, lba, data } => {
            if position == run.state.clear_len() {
                assert(clear_ahead(run.current, after.state)) by {
                    assert forall|i: int|
                        after.state.last_footer_block < i <= after.state.cleared_to implies
                        #[trigger] run.current[i] == zeros(4096) by {
                        assert(i <= run.state.cleared_to ==> run.current[i] == run.durable[i]);
                    }
                }
                let root = selected(run.current)->Ok_0;
                assert(image_of(after.state, root) == image_of(run.state, root));
                lemma_sync(run, after);
            } else {
                let block = run.state.cleared_to + 1 + position;
                lemma_written_block(run.current, block, zeros(4096));
                assert(after.recent() == recent);
            }
        },
        Work::Checkpoint { position, write } => {
            let root = selected(run.current)->Ok_0;
            assert(image_of(after.state, root) == image_of(run.state, root));
            assert(after.in_checkpoint()) by {
                assert(position == 0);
            }
            assert(during_checkpoint(run.current, after.state, 1) =~= run.current);
            lemma_sync(run, after);
        },
        _ => {
            let root = selected(run.current)->Ok_0;
            assert(image_of(after.state, root) == image_of(run.state, root));
            lemma_sync(run, after);
        },
    }
}

/// One more write that can be appended.
proof fn lemma_more_writes(state: State, recent: Seq<(u32, Seq<u8>)>, lba: u32, data: Seq<u8>)
    requires
        can_append(state, recent),
        after_writes(state, recent, recent.len() as int).allows(Work::Record { lba, data }),
    ensures
        can_append(state, recent.push((lba, data))),
        after_writes(state, recent.push((lba, data)), recent.len() as int) == after_writes(
            state,
            recent,
            recent.len() as int,
        ),
        after_writes(state, recent.push((lba, data)), (recent.len() + 1) as int) == after_writes(
            state,
            recent,
            recent.len() as int,
        ).appended(lba, data),
{
    let more = recent.push((lba, data));
    assert forall|i: int| 0 <= i < more.len() implies (#[trigger] after_writes(
        state,
        more,
        i,
    )).allows(Work::Record { lba: more[i].0, data: more[i].1 }) by {
        lemma_same_writes(state, recent, more, i);
        if i < recent.len() {
            assert(after_writes(state, recent, i).allows(
                Work::Record { lba: recent[i].0, data: recent[i].1 },
            ));
        }
    }
    lemma_same_writes(state, recent, more, recent.len() as int);
}

/// The volume after some writes depends on those writes alone.
proof fn lemma_same_writes(
    state: State,
    left: Seq<(u32, Seq<u8>)>,
    right: Seq<(u32, Seq<u8>)>,
    count: int,
)
    requires
        count <= left.len(),
        count <= right.len(),
        forall|i: int| 0 <= i < count ==> left[i] == #[trigger] right[i],
    ensures
        after_writes(state, left, count) == after_writes(state, right, count),
    decreases count,
{
    if count > 0 {
        assert(left[count - 1] == right[count - 1]);
        lemma_same_writes(state, left, right, count - 1);
    }
}

/// One more write leaves the records before it as they are.
proof fn lemma_record_block_of_more(
    state: State,
    recent: Seq<(u32, Seq<u8>)>,
    lba: u32,
    data: Seq<u8>,
    block: int,
)
    requires
        state.last_footer_block < block <= state.last_footer_block + 2 * recent.len(),
    ensures
        record_block(state, recent.push((lba, data)), block) == record_block(state, recent, block),
{
    let more = recent.push((lba, data));
    let at = block - state.last_footer_block - 1;
    assert(0 <= at / 2 < recent.len());
    lemma_same_writes(state, recent, more, at / 2);
}

/// The mapping of a log is that of any log that begins with it.
proof fn lemma_mapped_of_more(
    state: State,
    log: Seq<(u32, Seq<u8>)>,
    count: int,
    other: Seq<(u32, Seq<u8>)>,
)
    requires
        mapped(state, log, count),
        0 <= count <= log.len(),
        count <= other.len(),
        forall|i: int| 0 <= i < count ==> log[i] == #[trigger] other[i],
    ensures
        mapped(state, other, count),
{
    assert forall|lba: int| 0 <= lba < state.volume_blocks implies match last_write(
        other,
        count,
        lba,
    ) {
        None => #[trigger] state.physical_blocks[lba] == 0,
        Some(index) => {
            &&& state.layout().log_start <= state.physical_blocks[lba] <= state.last_footer_block
            &&& state.checksums[lba] == payload_checksum_of(
                state.volume_id,
                lba as u32,
                state.physical_blocks[lba],
                other[index].1,
            )
        },
    } by {
        lemma_last_write(log, other, count, lba);
        let known = state.physical_blocks[lba];
    }
}

/// A checkpoint whose body was made durable is the same written again.
proof fn lemma_body_is_there(disk: Disk, state: State, count: int)
    requires
        state.wf(),
        state.body_blocks() + 1 <= count,
    ensures
        during_checkpoint(
            during_checkpoint(disk, state, state.body_blocks() + 1),
            state.flushed(),
            count,
        ) == during_checkpoint(disk, state, count),
{
    law_layout_regions_are_adjacent(state.volume_blocks as int);
    let middle = during_checkpoint(disk, state, state.body_blocks() + 1);
    assert(during_checkpoint(middle, state.flushed(), count) =~= during_checkpoint(
        disk,
        state,
        count,
    ));
}

/// A checkpoint leaves the log alone.
proof fn lemma_checkpoint_frame(run: Run, position: int)
    requires
        run.holds(),
        run.in_checkpoint(),
    ensures
        ({
            let after = during_checkpoint(run.durable, run.state, position);
            &&& forall|i: int|
                run.state.layout().log_start <= i < after.len() ==> #[trigger] after[i]
                    == run.durable[i]
            &&& clear_ahead(after, run.state)
            &&& forall|lba: int|
                0 <= lba < run.state.volume_blocks ==> #[trigger] content(after, run.state, lba)
                    == content(run.durable, run.state, lba)
        }),
{
    law_layout_regions_are_adjacent(run.state.volume_blocks as int);
    let after = during_checkpoint(run.durable, run.state, position);
    assert forall|lba: int| 0 <= lba < run.state.volume_blocks implies #[trigger] content(
        after,
        run.state,
        lba,
    ) == content(run.durable, run.state, lba) by {
        lemma_last_write(run.log, run.log, run.safe, lba);
        let at = run.state.physical_blocks[lba] as int;
        assert(at == 0 || run.state.layout().log_start <= at <= run.state.last_footer_block);
    }
    assert forall|i: int| run.state.last_footer_block < i <= run.state.cleared_to implies
        #[trigger] after[i] == zeros(4096) by {
        assert(after[i] == run.durable[i]);
    }
}

/// Before the descriptor of a checkpoint is written the newest checkpoint is the one it was.
proof fn lemma_newest_kept(disk: Disk, after: Disk, state: State)
    requires
        state.wf(),
        sound(disk, state),
        settled(disk),
        anchored(after, state),
        after.len() == disk.len(),
        after[0] == disk[0],
        after[1] == disk[1],
    ensures
        settled(after),
        selected(after) == selected(disk),
{
    lemma_selected(disk, selected(disk)->Ok_0);
    lemma_selected(after, selected(after)->Ok_0);
}

/// What holds is kept when a request of a checkpoint succeeds.
#[verifier::spinoff_prover]
#[verifier::rlimit(60)]
proof fn lemma_complete_checkpoint(run: Run)
    requires
        run.holds(),
        run.in_checkpoint(),
    ensures
        run.completed().holds(),
{
    let after = run.completed();
    let state = run.state;
    let request = state.outstanding(run.work);
    let reply = Ok::<Seq<u8>, IoFailure>(answer(run.current, request));
    law_layout_regions_are_adjacent(state.volume_blocks as int);
    law_operations_keep_the_volume_sound(state, run.work, reply);
    assert(run.recent() =~= Seq::<(u32, Seq<u8>)>::empty());
    if let Work::Checkpoint { position, write } = run.work {
        lemma_checkpoint_frame(run, position);
        lemma_during_checkpoint_wf(run.durable, state, position);
        lemma_during_checkpoint(run.durable, state, position);
        assert forall|lba: int|
            0 <= lba < state.volume_blocks && !run.torn.contains(lba) implies #[trigger] content(
            run.current,
            state,
            lba,
        ) == value(run.log, run.log.len() as int, lba) by {
            assert(content(run.durable, state, lba) == value(run.log, run.safe, lba));
        }
        if position == state.checkpoint_len() - 1 {
            assert(during_checkpoint(run.durable, state, state.checkpoint_len()) =~= run.current);
            lemma_during_checkpoint(run.durable, state, state.checkpoint_len());
            assert(state.checkpoint_requests().take(state.checkpoint_len())
                =~= state.checkpoint_requests());
            law_checkpoint_keeps_the_volume_sound(run.durable, state);
            lemma_sync(run, after);
        } else if position == state.body_blocks() + 1 {
            law_checkpoint_can_be_cut_short(run.durable, state, position);
            lemma_newest_kept(run.durable, run.current, state);
            let root = selected(run.current)->Ok_0;
            assert(image_of(state.flushed(), root) == image_of(state, root));
            lemma_body_is_there(run.durable, state, position + 1);
            assert(during_checkpoint(run.durable, state, position + 1) =~= run.current);
            lemma_sync(run, after);
        } else {
            lemma_during_checkpoint_step(run.durable, state, position);
        }
    }
}

/// The volume that is opened from what is left of a backing that still holds it.
#[verifier::spinoff_prover]
#[verifier::rlimit(40)]
proof fn lemma_opened(
    left: Disk,
    there: State,
    log: Seq<(u32, Seq<u8>)>,
    options: VolumeOpenOptions,
)
    requires
        there.wf(),
        !there.failed,
        anchored(left, there),
        settled(left),
        there.last_lsn == log.len(),
        mapped(there, log, log.len() as int),
        options.valid(),
    ensures
        recovered_from(left) is Ok,
        ({
            let run = Run::opened(left, options, log);
            &&& run.holds()
            &&& run.state == State {
                checkpoint_after_bytes: options.checkpoint_after_bytes,
                ..there.reopened()
            }
            &&& forall|lba: int|
                0 <= lba < there.volume_blocks ==> #[trigger] content(run.durable, run.base, lba)
                    == content(left, there, lba)
        }),
{
    law_recovery_gives_back_the_volume(left, there);
    law_opened_volume_is_anchored(left, options);
    let run = Run::opened(left, options, log);
    assert(run.recent() =~= Seq::<(u32, Seq<u8>)>::empty());
    assert forall|lba: int| 0 <= lba < run.base.volume_blocks implies match last_write(
        log,
        run.safe,
        lba,
    ) {
        None => #[trigger] run.base.physical_blocks[lba] == 0,
        Some(index) => {
            &&& run.base.layout().log_start <= run.base.physical_blocks[lba]
                <= run.base.last_footer_block
            &&& run.base.checksums[lba] == payload_checksum_of(
                run.base.volume_id,
                lba as u32,
                run.base.physical_blocks[lba],
                log[index].1,
            )
        },
    } by {
        let known = there.physical_blocks[lba];
    }
    assert forall|lba: int| 0 <= lba < there.volume_blocks implies #[trigger] content(
        run.durable,
        run.base,
        lba,
    ) == content(left, there, lba) by {
        let at = there.physical_blocks[lba] as int;
        assert(at <= there.last_footer_block);
    }
    assert forall|lba: int|
        0 <= lba < run.base.volume_blocks && !run.torn.contains(lba) implies #[trigger] content(
        run.durable,
        run.base,
        lba,
    ) == value(log, run.safe, lba) by {}
}

/// What opening finds after a crash outside a checkpoint.
#[verifier::spinoff_prover]
#[verifier::rlimit(60)]
pub proof fn lemma_crash_logged(run: Run, left: Disk)
    requires
        run.holds(),
        !run.in_checkpoint(),
        run.may_become(left),
        !misled(
            run.base,
            run.attempted().skip(run.safe),
            left,
            selected(run.durable)->Ok_0,
        ),
    ensures
        ({
            let count = run.surviving(left);
            let recent = run.attempted().skip(run.safe);
            let there = after_writes(run.base, recent, count - run.safe);
            &&& run.safe <= count <= run.attempted().len()
            &&& can_append(run.base, recent)
            &&& mapped(run.base, run.attempted(), run.safe)
            &&& there.wf()
            &&& !there.failed
            &&& anchored(left, there)
            &&& settled(left)
            &&& there.last_lsn == count
            &&& mapped(there, run.attempted(), count)
            &&& forall|i: int|
                0 <= i <= run.base.last_footer_block ==> run.durable[i] == #[trigger] left[i]
        }),
{
    let attempted = run.attempted();
    let recent = run.recent();
    let more = attempted.skip(run.safe);
    law_layout_regions_are_adjacent(run.state.volume_blocks as int);
    lemma_logged(run);
    lemma_after_writes(run.base, recent, recent.len() as int);
    if let Work::Record { lba, data } = run.work {
        let root = selected(run.durable)->Ok_0;
        let footer = run.state.new_footer(lba, data);
        assert(more =~= recent.push((lba, data)));
        lemma_more_writes(run.base, recent, lba, data);
        lemma_record_block(run.base, more, run.state.last_footer_block + 2, root);
        assert(footer == record_block(run.base, more, run.state.last_footer_block + 2));
        assert(data == record_block(run.base, more, run.state.last_footer_block + 1));
        lemma_written_pair(run.current, run.state.last_footer_block + 1, data, footer);
    } else {
        assert(more =~= recent);
    }
    assert(can_append(run.base, more));
    assert(may_leave(run.durable, run.base, more, left)) by {
        assert forall|i: int|
            0 <= i <= run.base.cleared_to && !(run.base.last_footer_block < i
                <= run.base.last_footer_block + 2 * more.len()) implies #[trigger] left[i]
            == run.durable[i] by {
            assert(run.current[i] == run.durable[i]);
            if let Work::Clear { position, .. } = run.work {
                if position < run.state.clear_len() {
                    lemma_written_block(
                        run.current,
                        run.state.cleared_to + 1 + position,
                        zeros(4096),
                    );
                }
            }
            assert(run.carried_out()[i] == run.current[i]);
        }
    }
    law_crash_leaves_a_prefix(run.durable, run.base, more, left);
    let count = kept(run.base, more, left);
    lemma_after_writes(run.base, more, count);
    lemma_mapped_of_more(run.base, run.log, run.safe, attempted);
    lemma_mapped(run.base, attempted, run.safe, count);
}

/// What opening finds after a crash during a checkpoint.
#[verifier::spinoff_prover]
#[verifier::rlimit(60)]
proof fn lemma_crash_in_checkpoint(run: Run, left: Disk) -> (there: State)
    requires
        run.holds(),
        run.in_checkpoint(),
        run.may_become(left),
    ensures
        there == run.state || there == run.state.published(),
        there.wf(),
        anchored(left, there),
        settled(left),
        forall|i: int|
            run.state.layout().log_start <= i < left.len() ==> #[trigger] left[i]
                == run.durable[i],
{
    let state = run.state;
    let slot = state.next_checkpoint_slot;
    let at = slot.number() as int;
    let body = state.body_blocks();
    let position = run.work->Checkpoint_position;
    let root = selected(run.durable)->Ok_0;
    law_layout_regions_are_adjacent(state.volume_blocks as int);
    lemma_during_checkpoint_step(run.durable, state, position);
    let next = during_checkpoint(run.durable, state, position + 1);
    lemma_selected(run.durable, root);
    if position <= body + 1 {
        assert forall|i: int| 0 <= i < left.len() && !spare(state, i) implies run.durable[i]
            == #[trigger] left[i] by {}
        assert(left[at] == run.durable[at]);
        law_spare_slot_can_be_lost(run.durable, left, state);
        assert(!spare(state, slot.other().number() as int));
        assert(left[0] == run.durable[0]);
        assert(left[1] == run.durable[1]);
        lemma_newest_kept(run.durable, left, state);
        state
    } else {
        let before = during_checkpoint(run.durable, state, body + 2);
        let after = during_checkpoint(run.durable, state, body + 3);
        assert forall|i: int| 0 <= i < left.len() && i != at implies run.durable[i]
            == #[trigger] left[i] by {
            assert(run.durable[i] == before[i]);
            assert(run.current[i] == before[i]);
            assert(next[i] == before[i]);
        }
        if left[at] == run.durable[at] {
            assert(left =~= before);
            lemma_during_checkpoint(run.durable, state, body + 2);
            law_checkpoint_can_be_cut_short(run.durable, state, body + 2);
            lemma_newest_kept(run.durable, left, state);
            state
        } else if left[at] != after[at] {
            assert(checkpoint_on(left, slot) is None);
            law_spare_slot_can_be_lost(run.durable, left, state);
            lemma_selected(left, selected(left)->Ok_0);
            state
        } else {
            assert(left =~= after);
            lemma_during_checkpoint(run.durable, state, state.checkpoint_len());
            assert(during_checkpoint(run.durable, state, state.checkpoint_len()) =~= after);
            assert(state.checkpoint_requests().take(state.checkpoint_len())
                =~= state.checkpoint_requests());
            law_checkpoint_keeps_the_volume_sound(run.durable, state);
            state.published()
        }
    }
}

/// Law: whenever a crash comes, opening succeeds and gives the volume as it was after the first
/// writes, from the making of the volume on: at least all those that were published before the
/// last completed sync, and none that did not begin. A logical block that none of the writes since
/// that sync names holds what it held; one that a surviving write names holds what that write put
/// there if its payload survived. The volume is as good as before, so that this holds again of the
/// next crash.
#[verifier::spinoff_prover]
#[verifier::rlimit(60)]
pub proof fn law_crash_keeps_a_prefix_of_all_writes(
    run: Run,
    left: Disk,
    options: VolumeOpenOptions,
)
    requires
        run.holds(),
        run.can(Event::Crash { left, options }),
    ensures
        recovered_from(left) is Ok,
        run.safe <= run.surviving(left) <= run.attempted().len(),
        ({
            let count = run.surviving(left);
            let recent = run.attempted().skip(run.safe);
            let after = run.after(Event::Crash { left, options });
            &&& after.holds()
            &&& after.state.volume_id == run.state.volume_id
            &&& after.state.volume_blocks == run.state.volume_blocks
            &&& after.state.last_lsn == count
            &&& forall|lba: int|
                0 <= lba < run.state.volume_blocks ==> (#[trigger] after.torn.contains(lba)
                    ==> match last_write(recent, count - run.safe, lba) {
                    None => run.torn.contains(lba),
                    Some(index) => left[run.base.last_footer_block + 2 * index + 1]
                        != recent[index].1,
                })
        }),
{
    let attempted = run.attempted();
    let recent = attempted.skip(run.safe);
    let count = run.surviving(left);
    let log = attempted.take(count);
    let after = run.after(Event::Crash { left, options });
    if run.in_checkpoint() {
        let there = lemma_crash_in_checkpoint(run, left);
        assert(log =~= run.log);
        assert(recent =~= Seq::<(u32, Seq<u8>)>::empty());
        assert(mapped(there, log, count)) by {
            assert forall|lba: int| 0 <= lba < there.volume_blocks implies match last_write(
                log,
                count,
                lba,
            ) {
                None => #[trigger] there.physical_blocks[lba] == 0,
                Some(index) => {
                    &&& there.layout().log_start <= there.physical_blocks[lba]
                        <= there.last_footer_block
                    &&& there.checksums[lba] == payload_checksum_of(
                        there.volume_id,
                        lba as u32,
                        there.physical_blocks[lba],
                        log[index].1,
                    )
                },
            } by {
                let known = run.base.physical_blocks[lba];
            }
        }
        lemma_opened(left, there, log, options);
        assert forall|lba: int|
            0 <= lba < run.state.volume_blocks && #[trigger] after.torn.contains(
                lba,
            ) implies run.torn.contains(lba) by {
            if !run.torn.contains(lba) {
                let at = there.physical_blocks[lba] as int;
                lemma_last_write(log, log, count, lba);
                assert(run.base.physical_blocks[lba] == there.physical_blocks[lba]);
                assert(at == 0 || there.layout().log_start <= at <= there.last_footer_block);
                assert(content(left, there, lba) == content(run.durable, run.base, lba));
                assert(content(after.durable, after.base, lba) == content(left, there, lba));
            }
        }
    } else {
        let there = after_writes(run.base, recent, count - run.safe);
        lemma_crash_logged(run, left);
        lemma_after_writes(run.base, recent, count - run.safe);
        lemma_logged(run);
        lemma_mapped_of_more(there, attempted, count, log);
        lemma_opened(left, there, log, options);
        assert forall|lba: int|
            0 <= lba < run.state.volume_blocks && #[trigger] after.torn.contains(
                lba,
            ) implies match last_write(recent, count - run.safe, lba) {
            None => run.torn.contains(lba),
            Some(index) => left[run.base.last_footer_block + 2 * index + 1] != recent[index].1,
        } by {
            lemma_content(run.durable, run.base, attempted, run.safe, count - run.safe, left, lba);
            lemma_last_write_from(attempted, run.safe, count - run.safe, lba);
            lemma_last_write(attempted, log, count, lba);
            lemma_last_write(attempted, run.log, run.safe, lba);
            assert(content(after.durable, after.base, lba) == content(left, there, lba));
            if !run.torn.contains(lba) {
                assert(content(run.durable, run.base, lba) == value(run.log, run.safe, lba));
            }
        }
    }
}

/// Law: whatever can happen keeps what holds of a volume, its backing and its writes.
#[verifier::spinoff_prover]
#[verifier::rlimit(40)]
pub proof fn law_every_event_keeps_what_holds(run: Run, event: Event)
    requires
        run.holds(),
        run.can(event),
    ensures
        run.after(event).holds(),
{
    match event {
        Event::Crash { left, options } => {
            law_crash_keeps_a_prefix_of_all_writes(run, left, options);
        },
        Event::Complete => {
            if run.in_checkpoint() {
                lemma_complete_checkpoint(run);
            } else {
                lemma_complete_logged(run);
            }
        },
        _ => {
            let after = run.after(event);
            law_layout_regions_are_adjacent(run.state.volume_blocks as int);
            assert(after.recent() == run.recent());
            assert(!after.in_checkpoint());
        },
    }
}

/// What reading `lba` gives.
pub open spec fn read_of(disk: Disk, state: State, lba: u32) -> StepView {
    if state.physical_blocks[lba as int] == 0 {
        StepView::Data(zeros(4096))
    } else {
        state.next(
            Work::Read { lba },
            Ok(answer(disk, state.outstanding(Work::Read { lba }))),
        ).2
    }
}

/// Law: reading gives what was written last, zeros if nothing was. Where a crash has lost the
/// payload, and nothing was written since, it may give the error that the checksum does not fit,
/// and never bytes that do not have the checksum of what was written.
#[verifier::spinoff_prover]
#[verifier::rlimit(40)]
pub proof fn law_reading_gives_what_was_written(run: Run, lba: u32)
    requires
        run.holds(),
        !run.in_checkpoint(),
        lba < run.state.volume_blocks,
    ensures
        ({
            let wanted = value(run.log, run.log.len() as int, lba as int);
            let at = run.state.physical_blocks[lba as int];
            &&& !run.torn.contains(lba as int) || last_write(
                run.recent(),
                run.recent().len() as int,
                lba as int,
            ) is Some ==> read_of(run.current, run.state, lba) == StepView::Data(wanted)
            &&& match read_of(run.current, run.state, lba) {
                StepView::Data(bytes) => at == 0 && bytes == wanted || payload_checksum_of(
                    run.state.volume_id,
                    lba,
                    at,
                    bytes,
                ) == payload_checksum_of(run.state.volume_id, lba, at, wanted),
                StepView::Failed(error) => error == StorageError::PayloadChecksumMismatch,
                _ => false,
            }
        }),
{
    lemma_logged(run);
    law_layout_regions_are_adjacent(run.state.volume_blocks as int);
    lemma_last_write(run.log, run.log, run.log.len() as int, lba as int);
    let at = run.state.physical_blocks[lba as int] as int;
    assert(at == 0 || run.state.layout().log_start <= at <= run.state.last_footer_block);
    if at != 0 {
        lemma_answer_block(run.current, at);
        assert(run.current[at].len() == 4096);
    }
    assert(content(run.current, run.state, lba as int) == if at == 0 {
        zeros(4096)
    } else {
        run.current[at]
    });
}

/// Law: a volume that was just made and opened holds what it should, which is zeros throughout.
#[verifier::spinoff_prover]
#[verifier::rlimit(40)]
pub proof fn law_every_history_begins_empty(
    disk: Disk,
    volume_id: u64,
    volume_blocks: u32,
    options: VolumeOpenOptions,
)
    requires
        backing_wf(disk),
        valid_volume_blocks(volume_blocks as int),
        layout_of(volume_blocks as int).log_start + 2 <= disk.len(),
        options.valid(),
        ({
            let root = initial_checkpoint(
                CheckpointSlot::Green,
                volume_id,
                volume_blocks,
                disk.len() as u64,
            );
            !record_follows(disk, root_on(disk, root))
        }),
    ensures
        ({
            let formatted = performed_all(
                disk,
                format_requests(volume_id, volume_blocks, disk.len() as u64),
            );
            let run = Run::opened(formatted, options, Seq::empty());
            &&& recovered_from(formatted) is Ok
            &&& run.holds()
            &&& run.state.volume_id == volume_id
            &&& run.state.volume_blocks == volume_blocks
            &&& forall|lba: int| !#[trigger] run.torn.contains(lba)
        }),
{
    let formatted = performed_all(
        disk,
        format_requests(volume_id, volume_blocks, disk.len() as u64),
    );
    let run = Run::opened(formatted, options, Seq::empty());
    law_formatted_volume_is_sound(disk, volume_id, volume_blocks, options);
    assert(run.recent() =~= Seq::<(u32, Seq<u8>)>::empty());
    assert forall|lba: int| !#[trigger] run.torn.contains(lba) by {
        if 0 <= lba < volume_blocks {
            assert(content(run.durable, run.state, lba) == zeros(4096));
        }
    }
}

/// What `events`, one after the other, make of `run`.
pub open spec fn after_events(run: Run, events: Seq<Event>) -> Run
    decreases events.len(),
{
    if events.len() == 0 {
        run
    } else {
        after_events(run, events.drop_last()).after(events.last())
    }
}

/// Whether `events` can happen one after the other.
pub open spec fn can_follow(run: Run, events: Seq<Event>) -> bool
    decreases events.len(),
{
    events.len() == 0 || {
        &&& can_follow(run, events.drop_last())
        &&& after_events(run, events.drop_last()).can(events.last())
    }
}

/// Whatever happens to a volume keeps what holds.
proof fn lemma_history(run: Run, events: Seq<Event>)
    requires
        run.holds(),
        can_follow(run, events),
    ensures
        after_events(run, events).holds(),
        after_events(run, events).state.volume_blocks == run.state.volume_blocks,
    decreases events.len(),
{
    if events.len() > 0 {
        lemma_history(run, events.drop_last());
        let before = after_events(run, events.drop_last());
        law_every_event_keeps_what_holds(before, events.last());
        match events.last() {
            Event::Crash { left, options } => {
                law_crash_keeps_a_prefix_of_all_writes(before, left, options);
            },
            Event::Complete => {
                let request = before.state.outstanding(before.work);
                let next = before.state.next(before.work, Ok(answer(before.current, request)));
                assert(next.0.volume_blocks == before.state.volume_blocks);
            },
            _ => {},
        }
    }
}

/// Law: from the making of a volume on, through any writes, reads, flushes, checkpoints and
/// earlier crashes, one request at a time, a crash at any moment leaves a backing that opens, and
/// the volume that is opened holds the first of all writes: at least those that were published
/// before the last completed sync, and at most those that began. The last of them has the last
/// sequence number: no record that was once lost comes back. Every logical block reads as what
/// the last of these writes put there, as zeros if none names it, or, where its payload was lost,
/// as an error; never as bytes without the checksum of what was written.
#[verifier::spinoff_prover]
#[verifier::rlimit(40)]
pub proof fn law_volume_survives(
    disk: Disk,
    volume_id: u64,
    volume_blocks: u32,
    first_options: VolumeOpenOptions,
    events: Seq<Event>,
    left: Disk,
    options: VolumeOpenOptions,
    lba: u32,
)
    requires
        backing_wf(disk),
        valid_volume_blocks(volume_blocks as int),
        layout_of(volume_blocks as int).log_start + 2 <= disk.len(),
        first_options.valid(),
        ({
            let root = initial_checkpoint(
                CheckpointSlot::Green,
                volume_id,
                volume_blocks,
                disk.len() as u64,
            );
            let formatted = performed_all(
                disk,
                format_requests(volume_id, volume_blocks, disk.len() as u64),
            );
            let first = Run::opened(formatted, first_options, Seq::empty());
            &&& !record_follows(disk, root_on(disk, root))
            &&& can_follow(first, events)
            &&& after_events(first, events).can(Event::Crash { left, options })
        }),
        lba < volume_blocks,
    ensures
        ({
            let formatted = performed_all(
                disk,
                format_requests(volume_id, volume_blocks, disk.len() as u64),
            );
            let first = Run::opened(formatted, first_options, Seq::empty());
            let run = after_events(first, events);
            let count = run.surviving(left);
            let recent = run.attempted().skip(run.safe);
            let wanted = value(run.attempted(), count, lba as int);
            &&& recovered_from(left) matches Ok(found)
            &&& run.safe <= count <= run.attempted().len()
            &&& found.cursor.checkpoint_lsn == count
            &&& {
                let opened = cleared(left, found, found.clear_blocks());
                let state = found.state(options);
                let at = state.physical_blocks[lba as int];
                let read = read_of(opened, state, lba);
                &&& match last_write(recent, count - run.safe, lba as int) {
                    None => !run.torn.contains(lba as int),
                    Some(index) => left[run.base.last_footer_block + 2 * index + 1]
                        == recent[index].1,
                } ==> read == StepView::Data(wanted)
                &&& match read {
                    StepView::Data(bytes) => at == 0 && bytes == wanted || payload_checksum_of(
                        state.volume_id,
                        lba,
                        at,
                        bytes,
                    ) == payload_checksum_of(state.volume_id, lba, at, wanted),
                    StepView::Failed(error) => error == StorageError::PayloadChecksumMismatch,
                    _ => false,
                }
            }
        }),
{
    let formatted = performed_all(
        disk,
        format_requests(volume_id, volume_blocks, disk.len() as u64),
    );
    let first = Run::opened(formatted, first_options, Seq::empty());
    law_every_history_begins_empty(disk, volume_id, volume_blocks, first_options);
    lemma_history(first, events);
    let run = after_events(first, events);
    law_crash_keeps_a_prefix_of_all_writes(run, left, options);
    let after = run.after(Event::Crash { left, options });
    law_reading_gives_what_was_written(after, lba);
    let count = run.surviving(left);
    assert(after.log == run.attempted().take(count));
    lemma_last_write(run.attempted(), after.log, count, lba as int);
}

} // verus!
