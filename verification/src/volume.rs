//! An open volume: reads, log appends, flushes and checkpoints.
//!
//! Each operation first says which request it needs; [`Volume::advance`] takes the reply and
//! says what comes next, until the operation is done or has failed.

use crate::body::encode_body_block;
#[allow(unused_imports)]
use crate::body::{body_of, joined, lemma_joined_push};
use crate::bytes::{copy_of, push_bytes, zero_bytes};
#[allow(unused_imports)]
use crate::bytes::zeros;
use crate::checksum::{digest, feed, new_hasher, payload_checksum};
#[allow(unused_imports)]
use crate::checksum::{hasher_input, hasher_seed, payload_checksum_of, xxh3_digest};
use crate::descriptor::{encode_checkpoint_descriptor, Checkpoint, CheckpointSlot};
#[allow(unused_imports)]
use crate::descriptor::descriptor_block;
use crate::device::{Operation, Reply, Request};
#[allow(unused_imports)]
use crate::device::{reply_view, Op, Req};
use crate::error::{IoFailure, StorageError};
use crate::footer::encode_write_footer;
#[allow(unused_imports)]
use crate::footer::footer_of;
use crate::layout::{layout_of_blocks, Layout, BLOCK_SIZE, MAXIMUM_RECORD_BLOCKS};
#[allow(unused_imports)]
use crate::layout::{law_layout_regions_are_adjacent, layout_of, valid_volume_blocks};
use vstd::prelude::*;
use xxhash_rust::xxh3::Xxh3;

verus! {

/// The replay bound of a volume that is opened without options.
pub const DEFAULT_CHECKPOINT_AFTER_BYTES: u64 = 67108864;

/// Configuration for opening a volume.
#[derive(Clone, Copy, Debug, PartialEq, Eq, Structural)]
pub struct VolumeOpenOptions {
    /// Maximum physical log bytes retained after the selected checkpoint.
    pub checkpoint_after_bytes: u64,
}

impl Default for VolumeOpenOptions {
    fn default() -> (options: Self)
        ensures
            options.checkpoint_after_bytes == DEFAULT_CHECKPOINT_AFTER_BYTES,
    {
        VolumeOpenOptions { checkpoint_after_bytes: DEFAULT_CHECKPOINT_AFTER_BYTES }
    }
}

impl VolumeOpenOptions {
    /// A whole number of blocks that leaves room for the largest record.
    pub open spec fn valid(self) -> bool {
        self.checkpoint_after_bytes % 4096 == 0 && self.checkpoint_after_bytes >= 339 * 4096
    }

    /// Whether a volume can be opened with these options.
    pub fn is_valid(&self) -> (valid: bool)
        ensures
            valid == self.valid(),
    {
        self.checkpoint_after_bytes % 4096 == 0 && self.checkpoint_after_bytes
            >= MAXIMUM_RECORD_BLOCKS * 4096
    }
}

/// Which operation is under way.
#[derive(Clone, Copy, Debug, PartialEq, Eq, Structural)]
pub enum Stage {
    Idle,
    Flush,
    Read,
    Checkpoint,
    Clear,
    Record,
}

/// The operation under way and what it needs to go on.
pub struct Task {
    pub stage: Stage,
    /// How many requests of a checkpoint or of clearing have completed.
    pub position: u32,
    /// What has been hashed of a checkpoint body.
    pub hasher: Xxh3,
    /// The logical block of a read or a write.
    pub lba: u32,
    /// The payload of a write.
    pub data: Vec<u8>,
    /// Whether a write waits for the checkpoint.
    pub then_write: bool,
}

/// An open volume.
pub struct Volume {
    pub volume_id: u64,
    pub volume_blocks: u32,
    pub backing_blocks: u64,
    pub physical_blocks: Vec<u32>,
    pub checksums: Vec<u64>,
    pub last_lsn: u64,
    pub durable_lsn: u64,
    pub checkpoint_lsn: u64,
    pub last_footer_block: u32,
    /// The blocks behind the log hold zeros up to this one.
    pub cleared_to: u32,
    pub next_checkpoint_slot: CheckpointSlot,
    pub log_bytes_since_checkpoint: u64,
    pub checkpoint_after_bytes: u64,
    pub failed: bool,
    pub task: Task,
}

/// What an operation needs next, or how it ended.
#[derive(Debug)]
pub enum Step {
    /// Carry out this request and report the reply.
    Perform(Request),
    /// The operation succeeded.
    Done,
    /// The read succeeded with this block.
    Data(Vec<u8>),
    /// The operation failed.
    Failed(StorageError),
}

/// The state of a volume between requests.
pub ghost struct State {
    pub volume_id: u64,
    pub volume_blocks: u32,
    pub backing_blocks: u64,
    pub physical_blocks: Seq<u32>,
    pub checksums: Seq<u64>,
    pub last_lsn: u64,
    pub durable_lsn: u64,
    pub checkpoint_lsn: u64,
    pub last_footer_block: u32,
    pub cleared_to: u32,
    pub next_checkpoint_slot: CheckpointSlot,
    pub log_bytes_since_checkpoint: u64,
    pub checkpoint_after_bytes: u64,
    pub failed: bool,
}

/// The operation under way.
pub ghost enum Work {
    Idle,
    Flush,
    Read { lba: u32 },
    /// A checkpoint whose request `position` is outstanding, and the write that waits for it.
    Checkpoint { position: int, write: Option<(u32, Seq<u8>)> },
    /// The clearing whose request `position` is outstanding, and the write that waits for it.
    Clear { position: int, lba: u32, data: Seq<u8> },
    Record { lba: u32, data: Seq<u8> },
}

/// The meaning of a step.
pub ghost enum StepView {
    Perform(Req),
    Done,
    Data(Seq<u8>),
    Failed(StorageError),
}

impl View for Step {
    type V = StepView;

    open spec fn view(&self) -> StepView {
        match *self {
            Step::Perform(request) => StepView::Perform(request@),
            Step::Done => StepView::Done,
            Step::Data(bytes) => StepView::Data(bytes@),
            Step::Failed(error) => StepView::Failed(error),
        }
    }
}

impl State {
    /// The layout of the backing.
    pub open spec fn layout(self) -> Layout {
        layout_of(self.volume_blocks as int)
    }

    /// What holds of every open volume.
    pub open spec fn wf(self) -> bool {
        &&& valid_volume_blocks(self.volume_blocks as int)
        &&& self.physical_blocks.len() == self.volume_blocks
        &&& self.checksums.len() == self.volume_blocks
        &&& self.layout().log_start + 2 <= self.backing_blocks <= 0x1_0000_0000
        &&& self.layout().log_start - 1 <= self.last_footer_block < self.backing_blocks
        &&& self.window_end(self.last_footer_block as int) <= self.cleared_to < self.backing_blocks
        &&& self.checkpoint_lsn <= self.last_lsn
        &&& self.durable_lsn <= self.last_lsn
        &&& self.last_lsn == 0 <==> self.last_footer_block == self.layout().log_start - 1
        &&& self.log_bytes_since_checkpoint == 0 <==> self.last_lsn == self.checkpoint_lsn
        &&& self.log_bytes_since_checkpoint <= 4096 * self.last_footer_block
        &&& self.checkpoint_after_bytes >= 339 * 4096
    }

    /// The last block at which the footer of a record can stand that follows the footer at `end`.
    pub open spec fn window_end(self, end: int) -> int {
        least(end + MAXIMUM_RECORD_BLOCKS, self.backing_blocks - 1)
    }

    /// Whether the next record would bring blocks within reach that have not been cleared.
    pub open spec fn needs_clearing(self) -> bool {
        self.cleared_to < self.window_end(self.last_footer_block + 2)
    }

    /// How many blocks are cleared at a time.
    pub open spec fn clear_len(self) -> int {
        least(MAXIMUM_RECORD_BLOCKS as int, self.backing_blocks - 1 - self.cleared_to)
    }

    /// Request `position` of clearing: write zeros block by block, then sync.
    pub open spec fn clear_request(self, position: int) -> Req {
        if position < self.clear_len() {
            Req {
                op: Op::Write { block: self.cleared_to + 1 + position, bytes: zeros(4096) },
                tag: (self.cleared_to + 1 + position) as u64,
            }
        } else {
            self.sync_request()
        }
    }

    /// The requests of clearing.
    pub open spec fn clear_requests(self) -> Seq<Req> {
        Seq::new((self.clear_len() + 1) as nat, |k: int| self.clear_request(k))
    }

    /// After blocks behind the log were cleared, which makes the log durable too.
    pub open spec fn cleared(self) -> State {
        State {
            cleared_to: (self.cleared_to + self.clear_len()) as u32,
            durable_lsn: self.last_lsn,
            ..self
        }
    }

    /// The number of blocks of a checkpoint body.
    pub open spec fn body_blocks(self) -> int {
        self.layout().physical_map_blocks + self.layout().checksum_map_blocks
    }

    /// The first block of the body of the next checkpoint.
    pub open spec fn body_start(self) -> int {
        match self.next_checkpoint_slot {
            CheckpointSlot::Green => self.layout().green_physical_map_start as int,
            CheckpointSlot::Blue => self.layout().blue_physical_map_start as int,
        }
    }

    /// The blocks of the body of the next checkpoint.
    pub open spec fn body(self) -> Seq<Seq<u8>> {
        body_of(self.layout(), self.physical_blocks, self.checksums)
    }

    /// The next checkpoint.
    pub open spec fn next_checkpoint(self) -> Checkpoint {
        Checkpoint {
            slot: self.next_checkpoint_slot,
            volume_id: self.volume_id,
            volume_blocks: self.volume_blocks,
            backing_blocks: self.backing_blocks,
            checkpoint_lsn: self.last_lsn,
            last_footer_block: self.last_footer_block,
            layout: self.layout(),
            body_checksum: xxh3_digest(0, joined(self.body())),
        }
    }

    /// The request that makes completed writes durable.
    pub open spec fn sync_request(self) -> Req {
        Req { op: Op::Sync, tag: self.last_lsn }
    }

    /// How many requests make up a checkpoint.
    pub open spec fn checkpoint_len(self) -> int {
        self.body_blocks() + 4
    }

    /// Request `position` of a checkpoint: sync the log, write the body block by block, sync
    /// it, write the descriptor, sync it.
    pub open spec fn checkpoint_request(self, position: int) -> Req {
        if 1 <= position <= self.body_blocks() {
            Req {
                op: Op::Write {
                    block: self.body_start() + position - 1,
                    bytes: self.body()[position - 1],
                },
                tag: self.last_lsn,
            }
        } else if position == self.body_blocks() + 2 {
            Req {
                op: Op::Write {
                    block: self.next_checkpoint_slot.number() as int,
                    bytes: descriptor_block(self.next_checkpoint()),
                },
                tag: self.last_lsn,
            }
        } else {
            self.sync_request()
        }
    }

    /// The requests of a checkpoint.
    pub open spec fn checkpoint_requests(self) -> Seq<Req> {
        Seq::new(self.checkpoint_len() as nat, |k: int| self.checkpoint_request(k))
    }

    /// The checksum that a write of `data` to `lba` stores.
    pub open spec fn new_checksum(self, lba: u32, data: Seq<u8>) -> u64 {
        payload_checksum_of(self.volume_id, lba, (self.last_footer_block + 1) as u32, data)
    }

    /// The footer of the record that writes `data` to `lba`.
    pub open spec fn new_footer(self, lba: u32, data: Seq<u8>) -> Seq<u8> {
        footer_of(
            self.volume_id,
            (self.last_lsn + 1) as u64,
            self.last_footer_block,
            (self.last_footer_block + 2) as u32,
            lba,
            self.new_checksum(lba, data),
        )
    }

    /// The request that appends the record that writes `data` to `lba`.
    pub open spec fn record_request(self, lba: u32, data: Seq<u8>) -> Req {
        Req {
            op: Op::Write {
                block: self.last_footer_block + 1,
                bytes: data + self.new_footer(lba, data),
            },
            tag: (self.last_lsn + 1) as u64,
        }
    }

    /// Why a write to `lba` is refused, if it is.
    pub open spec fn write_refusal(self, lba: u32) -> Option<StorageError> {
        if self.failed {
            Some(StorageError::VolumeFailed)
        } else if lba >= self.volume_blocks {
            Some(StorageError::InvalidLogicalBlock)
        } else if self.last_lsn == u64::MAX {
            Some(StorageError::SequenceExhausted)
        } else if self.last_footer_block + 2 >= self.backing_blocks {
            Some(StorageError::NoSpace)
        } else {
            None
        }
    }

    /// Why a read of `lba` is refused, if it is.
    pub open spec fn read_refusal(self, lba: u32) -> Option<StorageError> {
        if self.failed {
            Some(StorageError::VolumeFailed)
        } else if lba >= self.volume_blocks {
            Some(StorageError::InvalidLogicalBlock)
        } else {
            None
        }
    }

    /// Whether the next record would exceed the replay bound.
    pub open spec fn needs_checkpoint(self) -> bool {
        self.log_bytes_since_checkpoint + 8192 > self.checkpoint_after_bytes
    }

    /// After the log was made durable.
    pub open spec fn flushed(self) -> State {
        State { durable_lsn: self.last_lsn, ..self }
    }

    /// After the volume was opened again.
    pub open spec fn reopened(self) -> State {
        State {
            durable_lsn: self.last_lsn,
            cleared_to: self.window_end(self.last_footer_block as int) as u32,
            ..self
        }
    }

    /// After a checkpoint was made durable.
    pub open spec fn published(self) -> State {
        State {
            durable_lsn: self.last_lsn,
            checkpoint_lsn: self.last_lsn,
            log_bytes_since_checkpoint: 0,
            next_checkpoint_slot: self.next_checkpoint_slot.other(),
            ..self
        }
    }

    /// After the record that writes `data` to `lba` was appended.
    pub open spec fn appended(self, lba: u32, data: Seq<u8>) -> State {
        State {
            physical_blocks: self.physical_blocks.update(
                lba as int,
                (self.last_footer_block + 1) as u32,
            ),
            checksums: self.checksums.update(lba as int, self.new_checksum(lba, data)),
            last_lsn: (self.last_lsn + 1) as u64,
            last_footer_block: (self.last_footer_block + 2) as u32,
            log_bytes_since_checkpoint: (self.log_bytes_since_checkpoint + 8192) as u64,
            ..self
        }
    }

    /// After a request failed.
    pub open spec fn broken(self) -> State {
        State { failed: true, ..self }
    }

    /// Whether `work` can be under way.
    pub open spec fn allows(self, work: Work) -> bool {
        match work {
            Work::Idle => true,
            Work::Flush => !self.failed,
            Work::Read { lba } => self.read_refusal(lba) is None && self.physical_blocks[lba as int]
                != 0,
            Work::Checkpoint { position, write } => {
                &&& !self.failed
                &&& 0 <= position < self.checkpoint_len()
                &&& write matches Some((lba, data)) ==> self.write_refusal(lba) is None
                    && data.len() == 4096
            },
            Work::Clear { position, lba, data } => {
                &&& self.write_refusal(lba) is None
                &&& data.len() == 4096
                &&& !self.needs_checkpoint()
                &&& self.needs_clearing()
                &&& 0 <= position <= self.clear_len()
            },
            Work::Record { lba, data } => {
                &&& self.write_refusal(lba) is None
                &&& data.len() == 4096
                &&& !self.needs_checkpoint()
                &&& !self.needs_clearing()
            },
        }
    }

    /// The request that `work` waits for.
    pub open spec fn outstanding(self, work: Work) -> Req {
        match work {
            Work::Read { lba } => Req {
                op: Op::Read { block: self.physical_blocks[lba as int] as int, blocks: 1 },
                tag: lba as u64,
            },
            Work::Checkpoint { position, write } => self.checkpoint_request(position),
            Work::Clear { position, lba, data } => self.clear_request(position),
            Work::Record { lba, data } => self.record_request(lba, data),
            _ => self.sync_request(),
        }
    }

    /// How a write goes on that needs no checkpoint.
    pub open spec fn append_work(self, lba: u32, data: Seq<u8>) -> Work {
        if self.needs_clearing() {
            Work::Clear { position: 0, lba, data }
        } else {
            Work::Record { lba, data }
        }
    }

    /// The operation with which a write of `data` to `lba` begins.
    pub open spec fn write_work(self, lba: u32, data: Seq<u8>) -> Work {
        if self.needs_checkpoint() {
            Work::Checkpoint { position: 0, write: Some((lba, data)) }
        } else {
            self.append_work(lba, data)
        }
    }

    /// The operation with which a volume is closed.
    pub open spec fn close_work(self) -> Work {
        if self.last_lsn == self.checkpoint_lsn {
            Work::Flush
        } else {
            Work::Checkpoint { position: 0, write: None }
        }
    }

    /// Where `work` goes when its request is answered by `reply`.
    pub open spec fn next(self, work: Work, reply: Result<Seq<u8>, IoFailure>) -> (
        State,
        Work,
        StepView,
    ) {
        match reply {
            Err(failure) => (
                self.broken(),
                Work::Idle,
                StepView::Failed(StorageError::Io(failure)),
            ),
            Ok(bytes) => match work {
                Work::Idle => (self, Work::Idle, StepView::Done),
                Work::Flush => (self.flushed(), Work::Idle, StepView::Done),
                Work::Read { lba } => if bytes.len() != 4096 {
                    (
                        self.broken(),
                        Work::Idle,
                        StepView::Failed(StorageError::Io(IoFailure::ShortOperation)),
                    )
                } else if payload_checksum_of(
                    self.volume_id,
                    lba,
                    self.physical_blocks[lba as int],
                    bytes,
                ) != self.checksums[lba as int] {
                    (self, Work::Idle, StepView::Failed(StorageError::PayloadChecksumMismatch))
                } else {
                    (self, Work::Idle, StepView::Data(bytes))
                },
                Work::Record { lba, data } => (
                    self.appended(lba, data),
                    Work::Idle,
                    StepView::Done,
                ),
                Work::Clear { position, lba, data } => if position == self.clear_len() {
                    let done = self.cleared();
                    (
                        done,
                        Work::Record { lba, data },
                        StepView::Perform(done.record_request(lba, data)),
                    )
                } else {
                    (
                        self,
                        Work::Clear { position: position + 1, lba, data },
                        StepView::Perform(self.clear_request(position + 1)),
                    )
                },
                Work::Checkpoint { position, write } => {
                    if position == self.checkpoint_len() - 1 {
                        let done = self.published();
                        match write {
                            None => (done, Work::Idle, StepView::Done),
                            Some((lba, data)) => (
                                done,
                                done.append_work(lba, data),
                                StepView::Perform(done.outstanding(done.append_work(lba, data))),
                            ),
                        }
                    } else {
                        let after = if self.checkpoint_request(position).op is Sync {
                            self.flushed()
                        } else {
                            self
                        };
                        (
                            after,
                            Work::Checkpoint { position: position + 1, write },
                            StepView::Perform(after.checkpoint_request(position + 1)),
                        )
                    }
                },
            },
        }
    }
}

impl View for Volume {
    type V = State;

    open spec fn view(&self) -> State {
        State {
            volume_id: self.volume_id,
            volume_blocks: self.volume_blocks,
            backing_blocks: self.backing_blocks,
            physical_blocks: self.physical_blocks@,
            checksums: self.checksums@,
            last_lsn: self.last_lsn,
            durable_lsn: self.durable_lsn,
            checkpoint_lsn: self.checkpoint_lsn,
            last_footer_block: self.last_footer_block,
            cleared_to: self.cleared_to,
            next_checkpoint_slot: self.next_checkpoint_slot,
            log_bytes_since_checkpoint: self.log_bytes_since_checkpoint,
            checkpoint_after_bytes: self.checkpoint_after_bytes,
            failed: self.failed,
        }
    }
}

impl Task {
    /// No operation: nothing is pending, nothing has been hashed, and nothing has completed.
    pub fn idle() -> (task: Task)
        ensures
            task.stage == Stage::Idle,
            task.position == 0,
            hasher_seed(task.hasher) == 0,
            hasher_input(task.hasher) == Seq::<u8>::empty(),
            task.lba == 0,
            task.data@ == Seq::<u8>::empty(),
            !task.then_write,
    {
        Task {
            stage: Stage::Idle,
            position: 0,
            hasher: new_hasher(),
            lba: 0,
            data: Vec::new(),
            then_write: false,
        }
    }
}

/// The smaller of two numbers.
pub open spec fn least(a: int, b: int) -> int {
    if a < b {
        a
    } else {
        b
    }
}

impl Volume {
    /// The operation under way.
    pub open spec fn work(self) -> Work {
        match self.task.stage {
            Stage::Idle => Work::Idle,
            Stage::Flush => Work::Flush,
            Stage::Read => Work::Read { lba: self.task.lba },
            Stage::Checkpoint => Work::Checkpoint {
                position: self.task.position as int,
                write: if self.task.then_write {
                    Some((self.task.lba, self.task.data@))
                } else {
                    None
                },
            },
            Stage::Clear => Work::Clear {
                position: self.task.position as int,
                lba: self.task.lba,
                data: self.task.data@,
            },
            Stage::Record => Work::Record { lba: self.task.lba, data: self.task.data@ },
        }
    }

    /// The volume's state is sound, and so is the operation under way: the hasher has been fed
    /// the body blocks of a checkpoint that were handed out.
    pub open spec fn wf(self) -> bool {
        &&& self@.wf()
        &&& self@.allows(self.work())
        &&& self.task.stage == Stage::Checkpoint ==> self.hashed(self.task.position as int)
    }

    /// Whether the hasher has been fed the first `position` body blocks, or all of them.
    pub open spec fn hashed(self, position: int) -> bool {
        &&& hasher_seed(self.task.hasher) == 0
        &&& hasher_input(self.task.hasher) == joined(
            self@.body().take(least(position, self@.body_blocks())),
        )
    }

    /// Returns the number of addressable 4 KiB logical blocks.
    pub fn volume_blocks(&self) -> (blocks: u32)
        ensures
            blocks == self@.volume_blocks,
    {
        self.volume_blocks
    }

    /// Whether no operation is under way.
    pub fn is_idle(&self) -> (idle: bool)
        ensures
            idle == (self.work() is Idle),
    {
        self.task.stage == Stage::Idle
    }

    /// The request that makes completed writes durable.
    fn sync(&self) -> (request: Request)
        ensures
            request@ == self@.sync_request(),
    {
        Request { operation: Operation::Sync, tag: self.last_lsn }
    }

    /// Hands out request `position` of a checkpoint.
    fn issue_checkpoint(&mut self, position: u32) -> (request: Request)
        requires
            old(self)@.wf(),
            0 < position < old(self)@.checkpoint_len(),
            old(self).hashed(position - 1),
        ensures
            request@ == old(self)@.checkpoint_request(position as int),
            final(self)@ == old(self)@,
            final(self).hashed(position as int),
            final(self).task.position == position,
            final(self).task.stage == old(self).task.stage,
            final(self).task.lba == old(self).task.lba,
            final(self).task.data == old(self).task.data,
            final(self).task.then_write == old(self).task.then_write,
    {
        let layout = layout_of_blocks(self.volume_blocks);
        proof {
            law_layout_regions_are_adjacent(self.volume_blocks as int);
        }
        let body_blocks: u32 = layout.physical_map_blocks + layout.checksum_map_blocks;
        self.task.position = position;
        if position <= body_blocks {
            let block = encode_body_block(
                &layout,
                &self.physical_blocks,
                &self.checksums,
                position - 1,
            );
            proof {
                assert(block@ == self@.body()[position - 1]);
                lemma_joined_push(self@.body(), position - 1);
            }
            feed(&mut self.task.hasher, block.as_slice());
            let body_start: u32 = match self.next_checkpoint_slot {
                CheckpointSlot::Green => layout.green_physical_map_start,
                CheckpointSlot::Blue => layout.blue_physical_map_start,
            };
            Request {
                operation: Operation::Write {
                    block: body_start as u64 + (position as u64 - 1),
                    bytes: block,
                },
                tag: self.last_lsn,
            }
        } else if position == body_blocks + 2 {
            assert(self@.body().take(body_blocks as int) =~= self@.body());
            let checkpoint = Checkpoint {
                slot: self.next_checkpoint_slot,
                volume_id: self.volume_id,
                volume_blocks: self.volume_blocks,
                backing_blocks: self.backing_blocks,
                checkpoint_lsn: self.last_lsn,
                last_footer_block: self.last_footer_block,
                layout,
                body_checksum: digest(&self.task.hasher),
            };
            Request {
                operation: Operation::Write {
                    block: self.next_checkpoint_slot.index() as u64,
                    bytes: encode_checkpoint_descriptor(&checkpoint),
                },
                tag: self.last_lsn,
            }
        } else {
            self.sync()
        }
    }

    /// Whether the next record would bring blocks within reach that have not been cleared.
    fn must_clear(&self) -> (must: bool)
        requires
            self@.wf(),
        ensures
            must == self@.needs_clearing(),
    {
        let window: u64 = self.last_footer_block as u64 + 2 + MAXIMUM_RECORD_BLOCKS;
        let end: u64 = self.backing_blocks - 1;
        let wanted: u64 = if window < end {
            window
        } else {
            end
        };
        (self.cleared_to as u64) < wanted
    }

    /// How many blocks are cleared at a time.
    fn clear_count(&self) -> (count: u32)
        requires
            self@.wf(),
        ensures
            count == self@.clear_len(),
    {
        let rest: u64 = self.backing_blocks - 1 - self.cleared_to as u64;
        if rest < MAXIMUM_RECORD_BLOCKS {
            rest as u32
        } else {
            MAXIMUM_RECORD_BLOCKS as u32
        }
    }

    /// Hands out request `position` of clearing.
    fn issue_clear(&mut self, position: u32) -> (request: Request)
        requires
            old(self)@.wf(),
            position <= old(self)@.clear_len(),
        ensures
            request@ == old(self)@.clear_request(position as int),
            final(self)@ == old(self)@,
            final(self).work() == (Work::Clear {
                position: position as int,
                lba: old(self).task.lba,
                data: old(self).task.data@,
            }),
    {
        self.task.stage = Stage::Clear;
        self.task.position = position;
        if position < self.clear_count() {
            let block: u64 = self.cleared_to as u64 + 1 + position as u64;
            Request {
                operation: Operation::Write { block, bytes: zero_bytes(BLOCK_SIZE) },
                tag: block,
            }
        } else {
            self.sync()
        }
    }

    /// Hands out the first request of the pending write, which needs no checkpoint.
    fn issue_append(&mut self) -> (request: Request)
        requires
            old(self)@.wf(),
            old(self)@.write_refusal(old(self).task.lba) is None,
            old(self).task.data@.len() == 4096,
            !old(self)@.needs_checkpoint(),
        ensures
            final(self).wf(),
            final(self)@ == old(self)@,
            final(self).work() == old(self)@.append_work(
                old(self).task.lba,
                old(self).task.data@,
            ),
            request@ == old(self)@.outstanding(final(self).work()),
    {
        if self.must_clear() {
            self.issue_clear(0)
        } else {
            self.issue_record()
        }
    }

    /// Hands out the request that appends the record of the pending write.
    fn issue_record(&mut self) -> (request: Request)
        requires
            old(self)@.wf(),
            old(self)@.allows(
                Work::Record { lba: old(self).task.lba, data: old(self).task.data@ },
            ),
        ensures
            request@ == old(self)@.record_request(old(self).task.lba, old(self).task.data@),
            final(self)@ == old(self)@,
            final(self).work() == (Work::Record {
                lba: old(self).task.lba,
                data: old(self).task.data@,
            }),
    {
        let payload_block: u32 = self.last_footer_block + 1;
        let footer_block: u32 = payload_block + 1;
        let lsn: u64 = self.last_lsn + 1;
        let checksum: u64 = payload_checksum(
            self.volume_id,
            self.task.lba,
            payload_block,
            self.task.data.as_slice(),
        );
        let footer = encode_write_footer(
            self.volume_id,
            lsn,
            self.last_footer_block,
            footer_block,
            self.task.lba,
            checksum,
        );
        let mut record: Vec<u8> = copy_of(self.task.data.as_slice());
        push_bytes(&mut record, footer.as_slice());
        self.task.stage = Stage::Record;
        Request {
            operation: Operation::Write { block: payload_block as u64, bytes: record },
            tag: lsn,
        }
    }

    /// Begins to make all completed writes durable.
    pub fn flush(&mut self) -> (result: Result<Request, StorageError>)
        requires
            old(self).wf(),
            old(self).work() is Idle,
        ensures
            final(self).wf(),
            final(self)@ == old(self)@,
            match result {
                Ok(request) => {
                    &&& !old(self)@.failed
                    &&& request@ == old(self)@.sync_request()
                    &&& final(self).work() is Flush
                },
                Err(error) => {
                    &&& old(self)@.failed
                    &&& error == StorageError::VolumeFailed
                    &&& final(self).work() is Idle
                },
            },
    {
        if self.failed {
            return Err(StorageError::VolumeFailed);
        }
        self.task.stage = Stage::Flush;
        Ok(self.sync())
    }

    /// Begins to write the mapping to the next checkpoint slot.
    pub fn publish_checkpoint(&mut self) -> (result: Result<Request, StorageError>)
        requires
            old(self).wf(),
            old(self).work() is Idle,
        ensures
            final(self).wf(),
            final(self)@ == old(self)@,
            match result {
                Ok(request) => {
                    &&& !old(self)@.failed
                    &&& request@ == old(self)@.checkpoint_request(0)
                    &&& final(self).work() == Work::Checkpoint { position: 0, write: None }
                },
                Err(error) => {
                    &&& old(self)@.failed
                    &&& error == StorageError::VolumeFailed
                    &&& final(self).work() is Idle
                },
            },
    {
        if self.failed {
            return Err(StorageError::VolumeFailed);
        }
        self.task.stage = Stage::Checkpoint;
        self.task.then_write = false;
        self.start_body();
        Ok(self.sync())
    }

    /// Resets the checkpoint to its first request.
    fn start_body(&mut self)
        requires
            old(self)@.wf(),
        ensures
            final(self)@ == old(self)@,
            final(self).hashed(0),
            final(self).task.position == 0,
            final(self).task.stage == old(self).task.stage,
            final(self).task.lba == old(self).task.lba,
            final(self).task.data == old(self).task.data,
            final(self).task.then_write == old(self).task.then_write,
    {
        self.task.position = 0;
        self.task.hasher = new_hasher();
        proof {
            law_layout_regions_are_adjacent(self.volume_blocks as int);
            assert(self@.body().take(0) =~= Seq::<Seq<u8>>::empty());
            assert(joined(Seq::<Seq<u8>>::empty()) =~= Seq::<u8>::empty());
        }
    }

    /// Begins to flush, and to checkpoint changed mapping state, before the volume is released.
    pub fn close(&mut self) -> (result: Result<Request, StorageError>)
        requires
            old(self).wf(),
            old(self).work() is Idle,
        ensures
            final(self).wf(),
            final(self)@ == old(self)@,
            match result {
                Ok(request) => {
                    &&& !old(self)@.failed
                    &&& request@ == old(self)@.sync_request()
                    &&& final(self).work() == old(self)@.close_work()
                },
                Err(error) => {
                    &&& old(self)@.failed
                    &&& error == StorageError::VolumeFailed
                    &&& final(self).work() is Idle
                },
            },
    {
        if self.last_lsn == self.checkpoint_lsn {
            self.flush()
        } else {
            self.publish_checkpoint()
        }
    }

    /// Begins to read one logical block, which holds zeros when it has not been written.
    pub fn read_block(&mut self, lba: u32) -> (result: Result<Step, StorageError>)
        requires
            old(self).wf(),
            old(self).work() is Idle,
        ensures
            final(self).wf(),
            final(self)@ == old(self)@,
            match result {
                Ok(step) => {
                    &&& old(self)@.read_refusal(lba) is None
                    &&& if old(self)@.physical_blocks[lba as int] == 0 {
                        final(self).work() is Idle && step@ == StepView::Data(zeros(4096))
                    } else {
                        &&& final(self).work() == Work::Read { lba }
                        &&& step@ == StepView::Perform(
                            old(self)@.outstanding(Work::Read { lba }),
                        )
                    }
                },
                Err(error) => {
                    &&& old(self)@.read_refusal(lba) == Some(error)
                    &&& final(self).work() is Idle
                },
            },
    {
        if self.failed {
            return Err(StorageError::VolumeFailed);
        }
        if lba >= self.volume_blocks {
            return Err(StorageError::InvalidLogicalBlock);
        }
        let physical_block: u32 = self.physical_blocks[lba as usize];
        if physical_block == 0 {
            return Ok(Step::Data(zero_bytes(BLOCK_SIZE)));
        }
        self.task.stage = Stage::Read;
        self.task.lba = lba;
        Ok(
            Step::Perform(
                Request {
                    operation: Operation::Read { block: physical_block as u64, blocks: 1 },
                    tag: lba as u64,
                },
            ),
        )
    }

    /// Begins to append one payload and its footer, after a checkpoint where the replay bound
    /// asks for one, and after clearing more of what stands behind the log where the record would
    /// bring it within reach. The write is published when the record has completed.
    pub fn write_block(&mut self, lba: u32, data: &[u8; BLOCK_SIZE]) -> (result: Result<
        Request,
        StorageError,
    >)
        requires
            old(self).wf(),
            old(self).work() is Idle,
        ensures
            final(self).wf(),
            final(self)@ == old(self)@,
            match result {
                Ok(request) => {
                    &&& old(self)@.write_refusal(lba) is None
                    &&& final(self).work() == old(self)@.write_work(lba, data@)
                    &&& request@ == old(self)@.outstanding(final(self).work())
                },
                Err(error) => {
                    &&& old(self)@.write_refusal(lba) == Some(error)
                    &&& final(self).work() is Idle
                },
            },
    {
        if self.failed {
            return Err(StorageError::VolumeFailed);
        }
        if lba >= self.volume_blocks {
            return Err(StorageError::InvalidLogicalBlock);
        }
        if self.last_lsn == u64::MAX {
            return Err(StorageError::SequenceExhausted);
        }
        if self.last_footer_block as u64 + 2 >= self.backing_blocks {
            return Err(StorageError::NoSpace);
        }
        self.task.lba = lba;
        self.task.data = copy_of(data.as_slice());
        let bytes_after_write: u64 = self.log_bytes_since_checkpoint + 8192;
        if bytes_after_write > self.checkpoint_after_bytes {
            self.task.stage = Stage::Checkpoint;
            self.task.then_write = true;
            self.start_body();
            Ok(self.sync())
        } else {
            Ok(self.issue_append())
        }
    }

    /// Takes the reply to the outstanding request and says what comes next.
    pub fn advance(&mut self, reply: Reply) -> (step: Step)
        requires
            old(self).wf(),
            !(old(self).work() is Idle),
        ensures
            final(self).wf(),
            (final(self)@, final(self).work(), step@) == old(self)@.next(
                old(self).work(),
                reply_view(reply),
            ),
    {
        let bytes = match reply {
            Ok(bytes) => bytes,
            Err(failure) => {
                self.failed = true;
                self.task.stage = Stage::Idle;
                return Step::Failed(StorageError::Io(failure));
            },
        };
        match self.task.stage {
            Stage::Idle => Step::Done,
            Stage::Flush => {
                self.durable_lsn = self.last_lsn;
                self.task.stage = Stage::Idle;
                Step::Done
            },
            Stage::Read => {
                self.task.stage = Stage::Idle;
                if bytes.len() != BLOCK_SIZE {
                    self.failed = true;
                    return Step::Failed(StorageError::Io(IoFailure::ShortOperation));
                }
                let lba: u32 = self.task.lba;
                if payload_checksum(
                    self.volume_id,
                    lba,
                    self.physical_blocks[lba as usize],
                    bytes.as_slice(),
                ) != self.checksums[lba as usize] {
                    return Step::Failed(StorageError::PayloadChecksumMismatch);
                }
                Step::Data(bytes)
            },
            Stage::Record => {
                self.finish_record();
                Step::Done
            },
            Stage::Clear => self.advance_clear(),
            Stage::Checkpoint => self.advance_checkpoint(),
        }
    }

    /// Publishes the record whose write has completed.
    fn finish_record(&mut self)
        requires
            old(self).wf(),
            old(self).work() is Record,
        ensures
            final(self).wf(),
            final(self)@ == old(self)@.appended(old(self).task.lba, old(self).task.data@),
            final(self).work() is Idle,
    {
        let lba: u32 = self.task.lba;
        let payload_block: u32 = self.last_footer_block + 1;
        let checksum: u64 = payload_checksum(
            self.volume_id,
            lba,
            payload_block,
            self.task.data.as_slice(),
        );
        self.physical_blocks.set(lba as usize, payload_block);
        self.checksums.set(lba as usize, checksum);
        self.last_lsn = self.last_lsn + 1;
        self.last_footer_block = payload_block + 1;
        self.log_bytes_since_checkpoint = self.log_bytes_since_checkpoint + 8192;
        self.task.stage = Stage::Idle;
    }

    /// Goes on with clearing whose outstanding request has completed.
    fn advance_clear(&mut self) -> (step: Step)
        requires
            old(self).wf(),
            old(self).work() is Clear,
        ensures
            final(self).wf(),
            (final(self)@, final(self).work(), step@) == old(self)@.next(
                old(self).work(),
                Ok(Seq::empty()),
            ),
    {
        let count: u32 = self.clear_count();
        let position: u32 = self.task.position;
        if position == count {
            self.cleared_to = self.cleared_to + count;
            self.durable_lsn = self.last_lsn;
            Step::Perform(self.issue_record())
        } else {
            Step::Perform(self.issue_clear(position + 1))
        }
    }

    /// Goes on with a checkpoint whose outstanding request has completed.
    fn advance_checkpoint(&mut self) -> (step: Step)
        requires
            old(self).wf(),
            old(self).work() is Checkpoint,
        ensures
            final(self).wf(),
            (final(self)@, final(self).work(), step@) == old(self)@.next(
                old(self).work(),
                Ok(Seq::empty()),
            ),
    {
        let layout = layout_of_blocks(self.volume_blocks);
        proof {
            law_layout_regions_are_adjacent(self.volume_blocks as int);
        }
        let body_blocks: u32 = layout.physical_map_blocks + layout.checksum_map_blocks;
        let position: u32 = self.task.position;
        if position == 0 || position == body_blocks + 1 || position == body_blocks + 3 {
            self.durable_lsn = self.last_lsn;
        }
        if position == body_blocks + 3 {
            self.checkpoint_lsn = self.last_lsn;
            self.log_bytes_since_checkpoint = 0;
            self.next_checkpoint_slot = self.next_checkpoint_slot.opposite();
            if self.task.then_write {
                Step::Perform(self.issue_append())
            } else {
                self.task.stage = Stage::Idle;
                Step::Done
            }
        } else {
            Step::Perform(self.issue_checkpoint(position + 1))
        }
    }
}

} // verus!
