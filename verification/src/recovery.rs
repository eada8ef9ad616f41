//! Formatting a backing, and opening the volume that it holds.
//!
//! Opening selects the newest checkpoint whose body is intact, replays the records that follow
//! it in the log, and clears the blocks that the next records will use.

use crate::body::{load_checksums, load_physical};
#[allow(unused_imports)]
use crate::body::{checksums_extended, physical_extended};
use crate::bytes::{push_bytes, zero_bytes};
#[allow(unused_imports)]
use crate::bytes::zeros;
use crate::checksum::{digest, feed, new_hasher};
#[allow(unused_imports)]
use crate::checksum::{hasher_input, hasher_seed, xxh3_digest};
use crate::descriptor::{
    decode_checkpoint, encode_checkpoint_descriptor, Checkpoint, CheckpointSlot,
};
#[allow(unused_imports)]
use crate::descriptor::{decoded_checkpoint, descriptor_block};
use crate::device::{Operation, Reply, Request};
#[allow(unused_imports)]
use crate::device::{reply_view, Op, Req};
use crate::error::{IoFailure, StorageError};
use crate::footer::{decode_write_tail_footer, RecoveredWrite};
#[allow(unused_imports)]
use crate::footer::{footer_writes, lba_at, valid_footer};
use crate::layout::{backing_blocks_for, layout_for, BLOCK_SIZE, MAXIMUM_RECORD_BLOCKS};
#[allow(unused_imports)]
use crate::layout::{
    backing_refusal, law_layout_regions_are_adjacent, layout_of, valid_volume_bytes,
};
use crate::volume::{Task, Volume, VolumeOpenOptions};
#[allow(unused_imports)]
use crate::volume::State;
use std::collections::TryReserveError;
use vstd::prelude::*;
use xxhash_rust::xxh3::Xxh3;

verus! {

/// The checkpoint of an empty volume.
pub open spec fn initial_checkpoint(
    slot: CheckpointSlot,
    volume_id: u64,
    volume_blocks: u32,
    backing_blocks: u64,
) -> Checkpoint {
    Checkpoint {
        slot,
        volume_id,
        volume_blocks,
        backing_blocks,
        checkpoint_lsn: 0,
        last_footer_block: (layout_of(volume_blocks as int).log_start - 1) as u32,
        layout: layout_of(volume_blocks as int),
        body_checksum: 0,
    }
}

/// The requests that format a backing: both descriptors, then a sync.
pub open spec fn format_requests(
    volume_id: u64,
    volume_blocks: u32,
    backing_blocks: u64,
) -> Seq<Req> {
    seq![
        Req {
            op: Op::Write {
                block: 0,
                bytes: descriptor_block(
                    initial_checkpoint(
                        CheckpointSlot::Green,
                        volume_id,
                        volume_blocks,
                        backing_blocks,
                    ),
                ) + descriptor_block(
                    initial_checkpoint(
                        CheckpointSlot::Blue,
                        volume_id,
                        volume_blocks,
                        backing_blocks,
                    ),
                ),
            },
            tag: 1,
        },
        Req { op: Op::Sync, tag: 2 },
    ]
}

/// Why a volume of `volume_bytes` bytes cannot be formatted into `backing_bytes` bytes, if it
/// cannot.
pub open spec fn format_refusal(volume_bytes: u64, backing_bytes: u64) -> Option<StorageError> {
    if !valid_volume_bytes(volume_bytes) {
        Some(StorageError::InvalidVolumeSize)
    } else {
        backing_refusal(layout_of((volume_bytes / 4096) as int), backing_bytes)
    }
}

/// The requests that write the two empty checkpoint roots to a backing of `backing_bytes`
/// bytes. They are carried out in order, up to the first that fails.
pub fn format(volume_bytes: u64, backing_bytes: u64, volume_id: u64) -> (result: Result<
    (Request, Request),
    StorageError,
>)
    ensures
        match result {
            Ok((write, sync)) => {
                &&& format_refusal(volume_bytes, backing_bytes) is None
                &&& seq![write@, sync@] == format_requests(
                    volume_id,
                    (volume_bytes / 4096) as u32,
                    backing_bytes / 4096,
                )
            },
            Err(error) => format_refusal(volume_bytes, backing_bytes) == Some(error),
        },
{
    let (volume_blocks, layout) = match layout_for(volume_bytes) {
        Ok(found) => found,
        Err(error) => {
            return Err(error);
        },
    };
    let backing_blocks: u64 = match backing_blocks_for(&layout, backing_bytes) {
        Ok(found) => found,
        Err(error) => {
            return Err(error);
        },
    };
    proof {
        law_layout_regions_are_adjacent(volume_blocks as int);
    }
    let mut checkpoint = Checkpoint {
        slot: CheckpointSlot::Green,
        volume_id,
        volume_blocks,
        backing_blocks,
        checkpoint_lsn: 0,
        last_footer_block: layout.log_start - 1,
        layout,
        body_checksum: 0,
    };
    let mut descriptors = encode_checkpoint_descriptor(&checkpoint);
    checkpoint.slot = CheckpointSlot::Blue;
    let blue = encode_checkpoint_descriptor(&checkpoint);
    push_bytes(&mut descriptors, blue.as_slice());
    let write = Request { operation: Operation::Write { block: 0, bytes: descriptors }, tag: 1 };
    let sync = Request { operation: Operation::Sync, tag: 2 };
    assert(seq![write@, sync@] =~= format_requests(volume_id, volume_blocks, backing_blocks));
    Ok((write, sync))
}

/// The mapping at a point of the log, and the checkpoint from which it was reached.
pub ghost struct Recovered {
    pub root: Checkpoint,
    pub cursor: Checkpoint,
    pub physical: Seq<u32>,
    pub checksums: Seq<u64>,
    pub log_bytes: int,
}

/// `physical` after `writes` were applied in order.
pub open spec fn physical_after(physical: Seq<u32>, writes: Seq<RecoveredWrite>) -> Seq<u32>
    decreases writes.len(),
{
    if writes.len() == 0 {
        physical
    } else {
        physical_after(physical, writes.drop_last()).update(
            writes.last().lba as int,
            writes.last().payload_block,
        )
    }
}

/// `checksums` after `writes` were applied in order.
pub open spec fn checksums_after(checksums: Seq<u64>, writes: Seq<RecoveredWrite>) -> Seq<u64>
    decreases writes.len(),
{
    if writes.len() == 0 {
        checksums
    } else {
        checksums_after(checksums, writes.drop_last()).update(
            writes.last().lba as int,
            writes.last().checksum,
        )
    }
}

impl Recovered {
    /// The mapping and the cursor belong to one volume, and the cursor lies as far behind the
    /// checkpoint as the replayed bytes say.
    pub open spec fn wf(self) -> bool {
        &&& self.root.coherent()
        &&& self.cursor.wf()
        &&& self.cursor == Checkpoint {
            checkpoint_lsn: self.cursor.checkpoint_lsn,
            last_footer_block: self.cursor.last_footer_block,
            ..self.root
        }
        &&& self.physical.len() == self.root.volume_blocks
        &&& self.checksums.len() == self.root.volume_blocks
        &&& self.root.last_footer_block <= self.cursor.last_footer_block
        &&& self.root.checkpoint_lsn <= self.cursor.checkpoint_lsn
        &&& self.log_bytes == 4096 * (self.cursor.last_footer_block - self.root.last_footer_block)
        &&& self.root.checkpoint_lsn == self.cursor.checkpoint_lsn
            <==> self.root.last_footer_block == self.cursor.last_footer_block
    }

    /// After the record that `footer`, found at `footer_block`, ends.
    pub open spec fn extended(self, footer: Seq<u8>, footer_block: u32) -> Recovered {
        let writes = footer_writes(footer, self.cursor, footer_block);
        Recovered {
            root: self.root,
            cursor: Checkpoint {
                checkpoint_lsn: (self.cursor.checkpoint_lsn + 1) as u64,
                last_footer_block: footer_block,
                ..self.cursor
            },
            physical: physical_after(self.physical, writes),
            checksums: checksums_after(self.checksums, writes),
            log_bytes: self.log_bytes + 4096 * (footer_block - self.cursor.last_footer_block),
        }
    }

    /// The last block at which the footer of the next record can stand.
    pub open spec fn footer_limit(self) -> int {
        if self.cursor.last_footer_block + 339 < self.cursor.backing_blocks - 1 {
            self.cursor.last_footer_block + 339
        } else {
            self.cursor.backing_blocks - 1
        }
    }

    /// How many blocks behind the cursor are cleared.
    pub open spec fn clear_blocks(self) -> int {
        let rest = self.cursor.backing_blocks - self.cursor.last_footer_block - 1;
        if rest < 339 {
            rest
        } else {
            339
        }
    }

    /// The volume that starts from here.
    pub open spec fn state(self, options: VolumeOpenOptions) -> State {
        State {
            volume_id: self.root.volume_id,
            volume_blocks: self.root.volume_blocks,
            backing_blocks: self.root.backing_blocks,
            physical_blocks: self.physical,
            checksums: self.checksums,
            last_lsn: self.cursor.checkpoint_lsn,
            durable_lsn: self.cursor.checkpoint_lsn,
            checkpoint_lsn: self.root.checkpoint_lsn,
            last_footer_block: self.cursor.last_footer_block,
            cleared_to: (self.cursor.last_footer_block + self.clear_blocks()) as u32,
            next_checkpoint_slot: self.root.slot.other(),
            log_bytes_since_checkpoint: self.log_bytes as u64,
            checkpoint_after_bytes: options.checkpoint_after_bytes,
            failed: false,
        }
    }
}

/// The mapping of `checkpoint` before any record, with the given maps.
pub open spec fn at_root(
    checkpoint: Checkpoint,
    physical: Seq<u32>,
    checksums: Seq<u64>,
) -> Recovered {
    Recovered { root: checkpoint, cursor: checkpoint, physical, checksums, log_bytes: 0 }
}

/// Why two valid descriptors cannot belong to one volume, if they cannot.
pub open spec fn roots_refusal(green: Option<Checkpoint>, blue: Option<Checkpoint>) -> Option<
    StorageError,
> {
    match (green, blue) {
        (Some(g), Some(b)) => if g.volume_id != b.volume_id || g.volume_blocks != b.volume_blocks {
            Some(StorageError::RootsDisagree)
        } else if g.checkpoint_lsn == b.checkpoint_lsn && (g.last_footer_block
            != b.last_footer_block || g.body_checksum != b.body_checksum) {
            Some(StorageError::EqualLsnRootsDisagree)
        } else {
            None
        },
        _ => None,
    }
}

/// The checkpoints to try, the newer one first, and green first where both are as new.
pub open spec fn candidates(green: Option<Checkpoint>, blue: Option<Checkpoint>) -> (
    Option<Checkpoint>,
    Option<Checkpoint>,
) {
    match (green, blue) {
        (Some(g), Some(b)) => if b.checkpoint_lsn > g.checkpoint_lsn {
            (blue, green)
        } else {
            (green, blue)
        },
        (Some(g), None) => (green, None),
        (None, _) => (blue, None),
    }
}

/// How far opening has come.
pub ghost enum Phase {
    /// The two descriptors are being read.
    Descriptors,
    /// Body block `index` of `checkpoint` is being read; `fed` is what came before it.
    Body {
        checkpoint: Checkpoint,
        fallback: Option<Checkpoint>,
        index: int,
        fed: Seq<u8>,
        physical: Seq<u32>,
        checksums: Seq<u64>,
    },
    /// Block `probe` is being read, in case it ends the next record.
    Replay { recovered: Recovered, probe: int },
    /// Block `index` behind the cursor is being cleared; past the last one, the sync is
    /// outstanding.
    Clear { recovered: Recovered, index: int },
}

/// A volume that is being opened.
pub ghost struct OpeningView {
    pub options: VolumeOpenOptions,
    pub backing_bytes: u64,
    pub phase: Phase,
}

/// The meaning of a step of opening.
pub ghost enum OpenStepView {
    Perform(OpeningView),
    Opened(State),
    Failed(StorageError),
}

impl OpeningView {
    /// Looks for the next record from block `probe` on.
    pub open spec fn probing(self, recovered: Recovered, probe: int) -> OpenStepView {
        OpenStepView::Perform(
            OpeningView {
                phase: if probe > recovered.footer_limit() {
                    Phase::Clear { recovered, index: 0 }
                } else {
                    Phase::Replay { recovered, probe }
                },
                ..self
            },
        )
    }

    /// Looks for the record that follows.
    pub open spec fn replaying(self, recovered: Recovered) -> OpenStepView {
        self.probing(recovered, recovered.cursor.last_footer_block + 2)
    }

    /// Tries `first`, and `second` if that has no intact body. An empty volume has no body.
    pub open spec fn trying(
        self,
        first: Option<Checkpoint>,
        second: Option<Checkpoint>,
    ) -> OpenStepView {
        match first {
            None => OpenStepView::Failed(StorageError::NoValidCheckpointBody),
            Some(checkpoint) => if checkpoint.checkpoint_lsn == 0 {
                self.replaying(
                    at_root(
                        checkpoint,
                        Seq::new(checkpoint.volume_blocks as nat, |i: int| 0u32),
                        Seq::new(checkpoint.volume_blocks as nat, |i: int| 0u64),
                    ),
                )
            } else {
                OpenStepView::Perform(
                    OpeningView {
                        phase: Phase::Body {
                            checkpoint,
                            fallback: second,
                            index: 0,
                            fed: Seq::empty(),
                            physical: Seq::empty(),
                            checksums: Seq::empty(),
                        },
                        ..self
                    },
                )
            },
        }
    }

    /// The request that opening waits for.
    pub open spec fn request(self) -> Req {
        match self.phase {
            Phase::Descriptors => Req { op: Op::Read { block: 0, blocks: 2 }, tag: 3 },
            Phase::Body { checkpoint, index, .. } => Req {
                op: Op::Read { block: checkpoint.body_start() + index, blocks: 1 },
                tag: (checkpoint.body_start() + index) as u64,
            },
            Phase::Replay { recovered, probe } => Req {
                op: Op::Read { block: probe, blocks: 1 },
                tag: probe as u64,
            },
            Phase::Clear { recovered, index } => {
                let append = recovered.cursor.last_footer_block + 1;
                if index < recovered.clear_blocks() {
                    Req {
                        op: Op::Write { block: append + index, bytes: zeros(4096) },
                        tag: (append + index) as u64,
                    }
                } else {
                    Req { op: Op::Sync, tag: append as u64 }
                }
            },
        }
    }

    /// How many entries each of the maps has to hold.
    pub open spec fn map_entries(self) -> u32 {
        match self.phase {
            Phase::Descriptors => 0,
            Phase::Body { checkpoint, .. } => checkpoint.volume_blocks,
            Phase::Replay { recovered, .. } | Phase::Clear { recovered, .. } => {
                recovered.root.volume_blocks
            },
        }
    }

    /// Where opening goes when its request is answered by `reply`.
    pub open spec fn next(self, reply: Result<Seq<u8>, IoFailure>) -> OpenStepView {
        match reply {
            Err(failure) => OpenStepView::Failed(StorageError::Io(failure)),
            Ok(bytes) => match self.phase {
                Phase::Descriptors => if bytes.len() != 8192 {
                    OpenStepView::Failed(StorageError::Io(IoFailure::ShortOperation))
                } else {
                    let green = decoded_checkpoint(
                        bytes.take(4096),
                        CheckpointSlot::Green,
                        self.backing_bytes,
                    );
                    let blue = decoded_checkpoint(
                        bytes.skip(4096),
                        CheckpointSlot::Blue,
                        self.backing_bytes,
                    );
                    match roots_refusal(green, blue) {
                        Some(error) => OpenStepView::Failed(error),
                        None => self.trying(candidates(green, blue).0, candidates(green, blue).1),
                    }
                },
                Phase::Body { checkpoint, fallback, index, fed, physical, checksums } => if bytes.len()
                    != 4096 {
                    OpenStepView::Failed(StorageError::Io(IoFailure::ShortOperation))
                } else {
                    let total = checkpoint.volume_blocks as int;
                    let in_physical = index < checkpoint.layout.physical_map_blocks;
                    let physical2 = if in_physical {
                        physical_extended(physical, bytes, total)
                    } else {
                        physical
                    };
                    let checksums2 = if in_physical {
                        checksums
                    } else {
                        checksums_extended(checksums, bytes, total)
                    };
                    if index + 1 < checkpoint.body_blocks() {
                        OpenStepView::Perform(
                            OpeningView {
                                phase: Phase::Body {
                                    checkpoint,
                                    fallback,
                                    index: index + 1,
                                    fed: fed + bytes,
                                    physical: physical2,
                                    checksums: checksums2,
                                },
                                ..self
                            },
                        )
                    } else if xxh3_digest(0, fed + bytes) == checkpoint.body_checksum {
                        self.replaying(at_root(checkpoint, physical2, checksums2))
                    } else {
                        self.trying(fallback, None)
                    }
                },
                Phase::Replay { recovered, probe } => if bytes.len() != 4096 {
                    OpenStepView::Failed(StorageError::Io(IoFailure::ShortOperation))
                } else if valid_footer(bytes, recovered.cursor, probe as u32) {
                    self.replaying(recovered.extended(bytes, probe as u32))
                } else {
                    self.probing(recovered, probe + 1)
                },
                Phase::Clear { recovered, index } => if index < recovered.clear_blocks() {
                    OpenStepView::Perform(
                        OpeningView { phase: Phase::Clear { recovered, index: index + 1 }, ..self },
                    )
                } else {
                    OpenStepView::Opened(recovered.state(self.options))
                },
            },
        }
    }

    /// What holds of every opening.
    pub open spec fn wf(self) -> bool {
        &&& self.options.valid()
        &&& match self.phase {
            Phase::Descriptors => true,
            Phase::Body { checkpoint, fallback, index, fed, physical, checksums } => {
                let total = checkpoint.volume_blocks as int;
                let first = checkpoint.layout.physical_map_blocks as int;
                &&& checkpoint.coherent()
                &&& checkpoint.checkpoint_lsn != 0
                &&& fallback matches Some(other) ==> other.coherent()
                &&& 0 <= index < checkpoint.body_blocks()
                &&& physical.len() == (if 1024 * index < total {
                    1024 * index
                } else {
                    total
                })
                &&& checksums.len() == (if index < first {
                    0
                } else if 512 * (index - first) < total {
                    512 * (index - first)
                } else {
                    total
                })
            },
            Phase::Replay { recovered, probe } => {
                &&& recovered.wf()
                &&& recovered.cursor.last_footer_block + 2 <= probe <= recovered.footer_limit()
            },
            Phase::Clear { recovered, index } => {
                &&& recovered.wf()
                &&& 0 <= index <= recovered.clear_blocks()
            },
        }
    }
}

/// The mapping at a point of the log, and the checkpoint from which it was reached.
pub struct Recovery {
    pub root: Checkpoint,
    pub cursor: Checkpoint,
    pub physical: Vec<u32>,
    pub checksums: Vec<u64>,
    pub log_bytes: u64,
}

impl View for Recovery {
    type V = Recovered;

    open spec fn view(&self) -> Recovered {
        Recovered {
            root: self.root,
            cursor: self.cursor,
            physical: self.physical@,
            checksums: self.checksums@,
            log_bytes: self.log_bytes as int,
        }
    }
}

/// How far opening has come.
#[allow(inconsistent_fields)]
pub enum OpenPhase {
    Descriptors,
    Body {
        checkpoint: Checkpoint,
        fallback: Option<Checkpoint>,
        index: u32,
        hasher: Xxh3,
        physical: Vec<u32>,
        checksums: Vec<u64>,
    },
    Replay { recovery: Recovery, probe: u64 },
    Clear { recovery: Recovery, index: u64 },
}

/// A volume that is being opened.
pub struct Opening {
    pub options: VolumeOpenOptions,
    pub backing_bytes: u64,
    pub phase: OpenPhase,
}

/// What opening needs next, or how it ended.
pub enum OpenStep {
    /// Carry out [`Opening::request`] and report the reply.
    Perform(Opening),
    /// The volume is open.
    Opened(Volume),
    /// The volume cannot be opened.
    Failed(StorageError),
}

impl View for OpenPhase {
    type V = Phase;

    open spec fn view(&self) -> Phase {
        match *self {
            OpenPhase::Descriptors => Phase::Descriptors,
            OpenPhase::Body { checkpoint, fallback, index, hasher, physical, checksums } => Phase::Body {
                checkpoint,
                fallback,
                index: index as int,
                fed: hasher_input(hasher),
                physical: physical@,
                checksums: checksums@,
            },
            OpenPhase::Replay { recovery, probe } => Phase::Replay {
                recovered: recovery@,
                probe: probe as int,
            },
            OpenPhase::Clear { recovery, index } => Phase::Clear {
                recovered: recovery@,
                index: index as int,
            },
        }
    }
}

impl View for Opening {
    type V = OpeningView;

    open spec fn view(&self) -> OpeningView {
        OpeningView {
            options: self.options,
            backing_bytes: self.backing_bytes,
            phase: self.phase@,
        }
    }
}

impl View for OpenStep {
    type V = OpenStepView;

    open spec fn view(&self) -> OpenStepView {
        match *self {
            OpenStep::Perform(opening) => OpenStepView::Perform(opening@),
            OpenStep::Opened(volume) => OpenStepView::Opened(volume@),
            OpenStep::Failed(error) => OpenStepView::Failed(error),
        }
    }
}

impl OpenStep {
    /// What holds of every step: an opening that goes on is sound, and so is an open volume,
    /// which has no operation under way.
    pub open spec fn wf(self) -> bool {
        match self {
            OpenStep::Perform(opening) => opening.wf(),
            OpenStep::Opened(volume) => volume.wf() && volume.work() is Idle,
            OpenStep::Failed(_) => true,
        }
    }
}

/// Begins to open the volume in a backing of `backing_bytes` bytes, with the default replay
/// bound.
pub fn open(backing_bytes: u64) -> (opening: Opening)
    ensures
        opening.wf(),
        opening@ == (OpeningView {
            options: VolumeOpenOptions { checkpoint_after_bytes: 67108864 },
            backing_bytes,
            phase: Phase::Descriptors,
        }),
{
    let options = VolumeOpenOptions::default();
    Opening { options, backing_bytes, phase: OpenPhase::Descriptors }
}

/// Begins to open the volume in a backing of `backing_bytes` bytes.
pub fn open_with_options(backing_bytes: u64, options: VolumeOpenOptions) -> (result: Result<
    Opening,
    StorageError,
>)
    ensures
        match result {
            Ok(opening) => {
                &&& options.valid()
                &&& opening.wf()
                &&& opening@ == OpeningView { options, backing_bytes, phase: Phase::Descriptors }
            },
            Err(error) => !options.valid() && error == StorageError::InvalidCheckpointAfterBytes,
        },
{
    if !options.is_valid() {
        return Err(StorageError::InvalidCheckpointAfterBytes);
    }
    Ok(Opening { options, backing_bytes, phase: OpenPhase::Descriptors })
}

/// Fills `map`, which is empty, with `count` times `value` if memory was `reserved` for that, and
/// gives up otherwise.
pub fn filled<T: Copy>(map: Vec<T>, value: T, count: u32, reserved: bool) -> (found: Option<Vec<T>>)
    requires
        map@.len() == 0,
    ensures
        match found {
            Some(full) => reserved && full@ == Seq::new(count as nat, |i: int| value),
            None => !reserved,
        },
{
    if !reserved {
        return None;
    }
    let mut map = map;
    let mut i: u32 = 0;
    assert(map@ =~= Seq::new(0, |i: int| value));
    while i < count
        invariant
            i <= count,
            map@ == Seq::new(i as nat, |i: int| value),
        decreases count - i,
    {
        map.push(value);
        assert(map@ =~= Seq::new((i + 1) as nat, |i: int| value));
        i = i + 1;
    }
    Some(map)
}

/// Whether a call of `Vec::try_reserve` for `count` entries of one of the two maps was answered
/// by an error. Nothing but such a call can show it.
pub open spec fn refused_room(count: u32) -> bool {
    ||| exists|map: &mut Vec<u32>, answer: Result<(), TryReserveError>|
        #[trigger] call_ensures(Vec::<u32>::try_reserve, (map, count as usize), answer) && answer
            is Err
    ||| exists|map: &mut Vec<u64>, answer: Result<(), TryReserveError>|
        #[trigger] call_ensures(Vec::<u64>::try_reserve, (map, count as usize), answer) && answer
            is Err
}

/// Calls `reserve` for `count` entries of `map`, and hands on how it was answered.
fn ask_for_room<T, F: FnOnce(&mut Vec<T>, usize) -> Result<(), TryReserveError>>(
    reserve: F,
    map: &mut Vec<T>,
    count: usize,
) -> (answer: Result<(), TryReserveError>)
    requires
        forall|any: &mut Vec<T>| call_requires(reserve, (any, count)),
        forall|any: &mut Vec<T>, answer: Result<(), TryReserveError>|
            call_ensures(reserve, (any, count), answer) ==> final(any)@ == any@,
    ensures
        final(map)@ == old(map)@,
        exists|any: &mut Vec<T>| call_ensures(reserve, (any, count), answer),
{
    reserve(map, count)
}

/// Two empty maps with room for `count` entries each, or nothing where room for one of them was
/// refused.
fn reserve_maps(count: u32) -> (maps: Option<(Vec<u32>, Vec<u64>)>)
    ensures
        match maps {
            Some((physical, checksums)) => {
                &&& physical@ == Seq::<u32>::empty()
                &&& checksums@ == Seq::<u64>::empty()
            },
            None => refused_room(count),
        },
{
    let mut physical: Vec<u32> = Vec::new();
    let mut checksums: Vec<u64> = Vec::new();
    if ask_for_room(Vec::<u32>::try_reserve, &mut physical, count as usize).is_err() {
        return None;
    }
    if ask_for_room(Vec::<u64>::try_reserve, &mut checksums, count as usize).is_err() {
        return None;
    }
    Some((physical, checksums))
}

/// A vector of `count` zeros, if there is memory for it: [`filled`] says what follows whether or
/// not `Vec::try_reserve` finds room for `count` entries, which rests on the machine.
fn zero_physical(count: u32) -> (map: Option<Vec<u32>>)
    ensures
        match map {
            Some(found) => found@ == Seq::new(count as nat, |i: int| 0u32),
            None => refused_room(count),
        },
{
    let mut map: Vec<u32> = Vec::new();
    let reserved = ask_for_room(Vec::<u32>::try_reserve, &mut map, count as usize).is_ok();
    filled(map, 0, count, reserved)
}

/// A vector of `count` zeros, if there is memory for it: [`filled`] says what follows whether or
/// not `Vec::try_reserve` finds room for `count` entries, which rests on the machine.
fn zero_checksums(count: u32) -> (map: Option<Vec<u64>>)
    ensures
        match map {
            Some(found) => found@ == Seq::new(count as nat, |i: int| 0u64),
            None => refused_room(count),
        },
{
    let mut map: Vec<u64> = Vec::new();
    let reserved = ask_for_room(Vec::<u64>::try_reserve, &mut map, count as usize).is_ok();
    filled(map, 0, count, reserved)
}

/// Applies the writes of one record to the maps.
fn apply_writes(physical: &mut Vec<u32>, checksums: &mut Vec<u64>, writes: &Vec<RecoveredWrite>)
    requires
        old(physical)@.len() == old(checksums)@.len(),
        forall|i: int|
            0 <= i < writes@.len() ==> (#[trigger] writes@[i]).lba < old(physical)@.len(),
    ensures
        final(physical)@ == physical_after(old(physical)@, writes@),
        final(checksums)@ == checksums_after(old(checksums)@, writes@),
        final(physical)@.len() == old(physical)@.len(),
        final(checksums)@.len() == old(checksums)@.len(),
{
    let mut i: usize = 0;
    assert(writes@.take(0) =~= Seq::<RecoveredWrite>::empty());
    while i < writes.len()
        invariant
            i <= writes@.len(),
            physical@.len() == old(physical)@.len(),
            checksums@.len() == physical@.len(),
            forall|j: int|
                0 <= j < writes@.len() ==> (#[trigger] writes@[j]).lba < physical@.len(),
            physical@ == physical_after(old(physical)@, writes@.take(i as int)),
            checksums@ == checksums_after(old(checksums)@, writes@.take(i as int)),
        decreases writes@.len() - i,
    {
        let write = writes[i];
        proof {
            assert(writes@.take(i + 1).drop_last() =~= writes@.take(i as int));
            assert(writes@[i as int].lba < physical@.len());
        }
        physical.set(write.lba as usize, write.payload_block);
        checksums.set(write.lba as usize, write.checksum);
        i = i + 1;
    }
    assert(writes@.take(writes@.len() as int) =~= writes@);
}

impl Opening {
    /// The opening is sound, and its hasher has seed zero.
    pub open spec fn wf(self) -> bool {
        &&& self@.wf()
        &&& self.phase matches OpenPhase::Body { hasher, .. } ==> hasher_seed(hasher) == 0
    }

    /// The request that opening waits for.
    pub fn request(&self) -> (request: Request)
        requires
            self.wf(),
        ensures
            request@ == self@.request(),
    {
        match &self.phase {
            OpenPhase::Descriptors => Request {
                operation: Operation::Read { block: 0, blocks: 2 },
                tag: 3,
            },
            OpenPhase::Body {
                checkpoint,
                fallback: _,
                index,
                hasher: _,
                physical: _,
                checksums: _,
            } => {
                let start: u32 = match checkpoint.slot {
                    CheckpointSlot::Green => checkpoint.layout.green_physical_map_start,
                    CheckpointSlot::Blue => checkpoint.layout.blue_physical_map_start,
                };
                let block: u64 = start as u64 + *index as u64;
                Request { operation: Operation::Read { block, blocks: 1 }, tag: block }
            },
            OpenPhase::Replay { recovery: _, probe } => Request {
                operation: Operation::Read { block: *probe, blocks: 1 },
                tag: *probe,
            },
            OpenPhase::Clear { recovery, index } => {
                let append: u64 = recovery.cursor.last_footer_block as u64 + 1;
                if *index < clear_count(recovery) {
                    Request {
                        operation: Operation::Write {
                            block: append + *index,
                            bytes: zero_bytes(BLOCK_SIZE),
                        },
                        tag: append + *index,
                    }
                } else {
                    Request { operation: Operation::Sync, tag: append }
                }
            },
        }
    }

    /// Takes the reply to the outstanding request and says what comes next.
    ///
    /// Apart from what the reply decides, opening fails where `Vec::try_reserve` refuses room for
    /// the mapping of the checkpoint that it turns to, and nowhere else.
    pub fn advance(self, reply: Reply) -> (step: OpenStep)
        requires
            self.wf(),
        ensures
            step.wf(),
            ({
                ||| step@ == self@.next(reply_view(reply))
                ||| {
                    &&& step@ == OpenStepView::Failed(StorageError::Io(IoFailure::OutOfMemory))
                    &&& reply is Ok
                    &&& self@.next(reply_view(reply)) matches OpenStepView::Perform(next)
                        && refused_room(next.map_entries())
                    &&& match self@.phase {
                        Phase::Descriptors => true,
                        Phase::Body { checkpoint, index, fed, .. } => {
                            &&& index + 1 == checkpoint.body_blocks()
                            &&& xxh3_digest(0, fed + reply->Ok_0@) != checkpoint.body_checksum
                        },
                        _ => false,
                    }
                }
            }),
    {
        let ghost view = self@;
        let bytes = match reply {
            Ok(bytes) => bytes,
            Err(failure) => {
                return OpenStep::Failed(StorageError::Io(failure));
            },
        };
        let options = self.options;
        let backing_bytes: u64 = self.backing_bytes;
        match self.phase {
            OpenPhase::Descriptors => choose_root(options, backing_bytes, bytes),
            OpenPhase::Body { checkpoint, fallback, index, hasher, physical, checksums } => {
                if bytes.len() != BLOCK_SIZE {
                    return OpenStep::Failed(StorageError::Io(IoFailure::ShortOperation));
                }
                proof {
                    law_layout_regions_are_adjacent(checkpoint.volume_blocks as int);
                }
                let mut hasher = hasher;
                let mut physical = physical;
                let mut checksums = checksums;
                feed(&mut hasher, bytes.as_slice());
                if index < checkpoint.layout.physical_map_blocks {
                    load_physical(&mut physical, bytes.as_slice(), checkpoint.volume_blocks);
                } else {
                    load_checksums(&mut checksums, bytes.as_slice(), checkpoint.volume_blocks);
                }
                let body_blocks: u32 = checkpoint.layout.physical_map_blocks
                    + checkpoint.layout.checksum_map_blocks;
                if index + 1 < body_blocks {
                    OpenStep::Perform(
                        Opening {
                            options,
                            backing_bytes,
                            phase: OpenPhase::Body {
                                checkpoint,
                                fallback,
                                index: index + 1,
                                hasher,
                                physical,
                                checksums,
                            },
                        },
                    )
                } else if digest(&hasher) == checkpoint.body_checksum {
                    let recovery = Recovery {
                        root: checkpoint,
                        cursor: checkpoint,
                        physical,
                        checksums,
                        log_bytes: 0,
                    };
                    let probe: u64 = checkpoint.last_footer_block as u64 + 2;
                    probe_at(options, backing_bytes, recovery, probe, Ghost(view))
                } else {
                    try_candidates(options, backing_bytes, fallback, None, Ghost(view))
                }
            },
            OpenPhase::Replay { recovery, probe } => {
                if bytes.len() != BLOCK_SIZE {
                    return OpenStep::Failed(StorageError::Io(IoFailure::ShortOperation));
                }
                let mut recovery = recovery;
                match decode_write_tail_footer(bytes.as_slice(), recovery.cursor, probe as u32) {
                    Some(writes) => {
                        proof {
                            assert forall|i: int| 0 <= i < writes@.len() implies (
                            #[trigger] writes@[i]).lba < recovery.physical@.len() by {
                                assert(lba_at(bytes@, i) < recovery.cursor.volume_blocks);
                            }
                        }
                        apply_writes(&mut recovery.physical, &mut recovery.checksums, &writes);
                        let blocks: u64 = probe - recovery.cursor.last_footer_block as u64;
                        recovery.cursor.checkpoint_lsn = recovery.cursor.checkpoint_lsn + 1;
                        recovery.cursor.last_footer_block = probe as u32;
                        recovery.log_bytes = recovery.log_bytes + blocks * 4096;
                        probe_at(options, backing_bytes, recovery, probe + 2, Ghost(view))
                    },
                    None => probe_at(options, backing_bytes, recovery, probe + 1, Ghost(view)),
                }
            },
            OpenPhase::Clear { recovery, index } => {
                if index < clear_count(&recovery) {
                    OpenStep::Perform(
                        Opening {
                            options,
                            backing_bytes,
                            phase: OpenPhase::Clear { recovery, index: index + 1 },
                        },
                    )
                } else {
                    let opened = opened_volume(options, recovery);
                    OpenStep::Opened(opened)
                }
            },
        }
    }
}

/// How many blocks behind the cursor are cleared.
fn clear_count(recovery: &Recovery) -> (count: u64)
    requires
        recovery@.wf(),
    ensures
        count == recovery@.clear_blocks(),
{
    let append: u64 = recovery.cursor.last_footer_block as u64 + 1;
    let rest: u64 = recovery.cursor.backing_blocks - append;
    if rest < MAXIMUM_RECORD_BLOCKS {
        rest
    } else {
        MAXIMUM_RECORD_BLOCKS
    }
}

/// The volume that starts from `recovery`.
fn opened_volume(options: VolumeOpenOptions, recovery: Recovery) -> (volume: Volume)
    requires
        options.valid(),
        recovery@.wf(),
    ensures
        volume@ == recovery@.state(options),
        volume.wf(),
        volume.work() is Idle,
{
    proof {
        law_layout_regions_are_adjacent(recovery.root.volume_blocks as int);
    }
    let cleared: u64 = recovery.cursor.last_footer_block as u64 + clear_count(&recovery);
    Volume {
        volume_id: recovery.root.volume_id,
        volume_blocks: recovery.root.volume_blocks,
        backing_blocks: recovery.root.backing_blocks,
        physical_blocks: recovery.physical,
        checksums: recovery.checksums,
        last_lsn: recovery.cursor.checkpoint_lsn,
        durable_lsn: recovery.cursor.checkpoint_lsn,
        checkpoint_lsn: recovery.root.checkpoint_lsn,
        last_footer_block: recovery.cursor.last_footer_block,
        cleared_to: cleared as u32,
        next_checkpoint_slot: recovery.root.slot.opposite(),
        log_bytes_since_checkpoint: recovery.log_bytes,
        checkpoint_after_bytes: options.checkpoint_after_bytes,
        failed: false,
        task: Task::idle(),
    }
}

/// Looks for the next record from block `probe` on, or turns to clearing.
fn probe_at(
    options: VolumeOpenOptions,
    backing_bytes: u64,
    recovery: Recovery,
    probe: u64,
    Ghost(view): Ghost<OpeningView>,
) -> (step: OpenStep)
    requires
        options.valid(),
        recovery@.wf(),
        recovery.cursor.last_footer_block + 2 <= probe,
        view.options == options,
        view.backing_bytes == backing_bytes,
    ensures
        step.wf(),
        step@ == view.probing(recovery@, probe as int),
{
    let window: u64 = recovery.cursor.last_footer_block as u64 + MAXIMUM_RECORD_BLOCKS;
    let end: u64 = recovery.cursor.backing_blocks - 1;
    let limit: u64 = if window < end {
        window
    } else {
        end
    };
    let phase = if probe > limit {
        OpenPhase::Clear { recovery, index: 0 }
    } else {
        OpenPhase::Replay { recovery, probe }
    };
    OpenStep::Perform(Opening { options, backing_bytes, phase })
}

/// Turns to the checkpoint `first`, with `second` to fall back on.
fn try_candidates(
    options: VolumeOpenOptions,
    backing_bytes: u64,
    first: Option<Checkpoint>,
    second: Option<Checkpoint>,
    Ghost(view): Ghost<OpeningView>,
) -> (step: OpenStep)
    requires
        options.valid(),
        first matches Some(checkpoint) ==> checkpoint.coherent(),
        second matches Some(checkpoint) ==> checkpoint.coherent(),
        view.options == options,
        view.backing_bytes == backing_bytes,
    ensures
        step.wf(),
        ({
            ||| step@ == view.trying(first, second)
            ||| {
                &&& first matches Some(checkpoint) && refused_room(checkpoint.volume_blocks)
                &&& step@ == OpenStepView::Failed(StorageError::Io(IoFailure::OutOfMemory))
            }
        }),
{
    let checkpoint = match first {
        Some(checkpoint) => checkpoint,
        None => {
            return OpenStep::Failed(StorageError::NoValidCheckpointBody);
        },
    };
    proof {
        law_layout_regions_are_adjacent(checkpoint.volume_blocks as int);
    }
    if checkpoint.checkpoint_lsn == 0 {
        let physical = match zero_physical(checkpoint.volume_blocks) {
            Some(map) => map,
            None => {
                return OpenStep::Failed(StorageError::Io(IoFailure::OutOfMemory));
            },
        };
        let checksums = match zero_checksums(checkpoint.volume_blocks) {
            Some(map) => map,
            None => {
                return OpenStep::Failed(StorageError::Io(IoFailure::OutOfMemory));
            },
        };
        let recovery = Recovery {
            root: checkpoint,
            cursor: checkpoint,
            physical,
            checksums,
            log_bytes: 0,
        };
        let probe: u64 = checkpoint.last_footer_block as u64 + 2;
        probe_at(options, backing_bytes, recovery, probe, Ghost(view))
    } else {
        let (physical, checksums) = match reserve_maps(checkpoint.volume_blocks) {
            Some(maps) => maps,
            None => {
                return OpenStep::Failed(StorageError::Io(IoFailure::OutOfMemory));
            },
        };
        OpenStep::Perform(
            Opening {
                options,
                backing_bytes,
                phase: OpenPhase::Body {
                    checkpoint,
                    fallback: second,
                    index: 0,
                    hasher: new_hasher(),
                    physical,
                    checksums,
                },
            },
        )
    }
}

/// Decodes the two descriptors and turns to the newer checkpoint.
fn choose_root(options: VolumeOpenOptions, backing_bytes: u64, bytes: Vec<u8>) -> (step: OpenStep)
    requires
        options.valid(),
    ensures
        step.wf(),
        ({
            let view = OpeningView { options, backing_bytes, phase: Phase::Descriptors };
            ||| step@ == view.next(Ok(bytes@))
            ||| {
                &&& view.next(Ok(bytes@)) matches OpenStepView::Perform(next) && refused_room(
                    next.map_entries(),
                )
                &&& step@ == OpenStepView::Failed(StorageError::Io(IoFailure::OutOfMemory))
            }
        }),
{
    let ghost view = OpeningView { options, backing_bytes, phase: Phase::Descriptors };
    if bytes.len() != 2 * BLOCK_SIZE {
        return OpenStep::Failed(StorageError::Io(IoFailure::ShortOperation));
    }
    let (green_bytes, blue_bytes) = bytes.as_slice().split_at(BLOCK_SIZE);
    assert(green_bytes@ =~= bytes@.take(4096));
    assert(blue_bytes@ =~= bytes@.skip(4096));
    let green = decode_checkpoint(green_bytes, CheckpointSlot::Green, backing_bytes);
    let blue = decode_checkpoint(blue_bytes, CheckpointSlot::Blue, backing_bytes);
    match (green, blue) {
        (Some(g), Some(b)) => {
            if g.volume_id != b.volume_id || g.volume_blocks != b.volume_blocks {
                return OpenStep::Failed(StorageError::RootsDisagree);
            }
            if g.checkpoint_lsn == b.checkpoint_lsn && (g.last_footer_block != b.last_footer_block
                || g.body_checksum != b.body_checksum) {
                return OpenStep::Failed(StorageError::EqualLsnRootsDisagree);
            }
            if b.checkpoint_lsn > g.checkpoint_lsn {
                try_candidates(options, backing_bytes, blue, green, Ghost(view))
            } else {
                try_candidates(options, backing_bytes, green, blue, Ghost(view))
            }
        },
        (Some(_), None) => try_candidates(options, backing_bytes, green, None, Ghost(view)),
        (None, _) => try_candidates(options, backing_bytes, blue, None, Ghost(view)),
    }
}

} // verus!
