//! What the operations of a volume give their callers, over the volume's own fields.

#[allow(unused_imports)]
use crate::bytes::zeros;
#[allow(unused_imports)]
use crate::completion::{Submission, SubmissionStep, Wait};
#[allow(unused_imports)]
use crate::device::{reply_view, Op, Reply, Request};
#[allow(unused_imports)]
use crate::error::{IoFailure, StorageError};
#[allow(unused_imports)]
use crate::layout::{layout_for, law_layout_regions_are_adjacent, Layout};
#[allow(unused_imports)]
use crate::recovery::{
    open, open_with_options, refused_room, OpenStep, OpenStepView, Opening,
};
#[allow(unused_imports)]
use crate::service::law_format_refusals;
#[allow(unused_imports)]
use crate::target::{
    controller_settings, target_configuration, ControllerSettings, TargetConfiguration,
};
#[allow(unused_imports)]
use crate::volume::{State, Step, StepView, Volume, VolumeOpenOptions};
use vstd::prelude::*;

verus! {

/// Law: a write to any block of a volume that has not failed is begun, as long as a sequence number
/// and two blocks of the log are left, and begins by asking for a sync or a write; it is refused
/// exactly otherwise, each time with its own error. The volume is what it was until it completes.
pub proof fn law_write_block(lba: u32, data: &[u8; 4096], result: Result<Request, StorageError>)
    ensures
        forall|volume: &mut Volume|
            (#[trigger] call_ensures(Volume::write_block, (volume, lba, data), result)
                && volume.wf() && volume.work() is Idle) ==> {
                let room = volume.last_footer_block + 2 < volume.backing_blocks;
                let numbers = volume.last_lsn < 0xffff_ffff_ffff_ffff;
                &&& result is Ok <==> !volume.failed && lba < volume.volume_blocks && numbers
                    && room
                &&& result matches Err(error) ==> error == (if volume.failed {
                    StorageError::VolumeFailed
                } else if lba >= volume.volume_blocks {
                    StorageError::InvalidLogicalBlock
                } else if !numbers {
                    StorageError::SequenceExhausted
                } else {
                    StorageError::NoSpace
                })
                &&& final(volume)@ == volume@
                &&& result matches Ok(request) ==> !(final(volume).work() is Idle) && request@
                    == volume@.outstanding(final(volume).work()) && !(request@.op is Read)
            },
{
}

/// Law: a read of any block of a volume that has not failed is begun, and gives zeros at once where
/// nothing was written; it is refused exactly otherwise.
pub proof fn law_read_block(lba: u32, result: Result<Step, StorageError>)
    ensures
        forall|volume: &mut Volume|
            (#[trigger] call_ensures(Volume::read_block, (volume, lba), result) && volume.wf()
                && volume.work() is Idle) ==> {
                &&& result is Ok <==> !volume.failed && lba < volume.volume_blocks
                &&& result matches Err(error) ==> error == (if volume.failed {
                    StorageError::VolumeFailed
                } else {
                    StorageError::InvalidLogicalBlock
                })
                &&& final(volume)@ == volume@
                &&& result matches Ok(step) ==> {
                    let at = volume.physical_blocks@[lba as int];
                    &&& at == 0 ==> step@ == StepView::Data(zeros(4096))
                    &&& at != 0 ==> (step@ matches StepView::Perform(request) && request.op
                        == (Op::Read { block: at as int, blocks: 1 }))
                }
            },
{
}

/// Law: a volume is flushed by one sync, closed by a sync first, and refuses either exactly if it
/// has failed.
pub proof fn law_flush_and_close(result: Result<Request, StorageError>)
    ensures
        forall|volume: &mut Volume|
            (#[trigger] call_ensures(Volume::flush, (volume,), result) && volume.wf()
                && volume.work() is Idle) ==> {
                &&& result is Ok <==> !volume.failed
                &&& result matches Ok(request) ==> request@.op is Sync && final(volume).work()
                    is Flush
                &&& result matches Err(error) ==> error is VolumeFailed
                &&& final(volume)@ == volume@
            },
        forall|volume: &mut Volume|
            (#[trigger] call_ensures(Volume::close, (volume,), result) && volume.wf()
                && volume.work() is Idle) ==> {
                &&& result is Ok <==> !volume.failed
                &&& result matches Ok(request) ==> request@.op is Sync && (final(volume).work()
                    is Checkpoint <==> volume.last_lsn != volume.checkpoint_lsn)
                &&& result matches Err(error) ==> error is VolumeFailed
                &&& final(volume)@ == volume@
            },
        forall|volume: &mut Volume|
            (#[trigger] call_ensures(Volume::publish_checkpoint, (volume,), result) && volume.wf()
                && volume.work() is Idle) ==> {
                &&& result is Ok <==> !volume.failed
                &&& result matches Ok(request) ==> request@.op is Sync && final(volume).work()
                    is Checkpoint
                &&& final(volume)@ == volume@
            },
{
}

/// Law: whatever operation is under way, a request that failed ends it, hands on that failure and
/// fails the volume; and as long as requests succeed, what an operation has done to the volume is
/// never undone.
pub proof fn law_advance(failure: IoFailure, bytes: Vec<u8>, step: Step)
    ensures
        forall|volume: &mut Volume|
            (#[trigger] call_ensures(Volume::advance, (volume, Err::<Vec<u8>, IoFailure>(failure)), step)
                && volume.wf() && !(volume.work() is Idle)) ==> {
                &&& step@ == StepView::Failed(StorageError::Io(failure))
                &&& final(volume).failed
                &&& final(volume).work() is Idle
                &&& final(volume)@ == State { failed: true, ..volume@ }
            },
        forall|volume: &mut Volume|
            (#[trigger] call_ensures(Volume::advance, (volume, Ok::<Vec<u8>, IoFailure>(bytes)), step)
                && volume.wf() && !(volume.work() is Idle) && !(volume.work() is Read)) ==> {
                &&& !(step@ is Failed)
                &&& !(step@ is Data)
                &&& step@ is Done <==> final(volume).work() is Idle
                &&& final(volume).last_lsn >= volume.last_lsn
                &&& final(volume).durable_lsn >= volume.durable_lsn
                &&& final(volume).failed == volume.failed
                &&& step@ matches StepView::Perform(request) ==> request
                    == final(volume)@.outstanding(final(volume).work())
            },
{
}

/// Law: a backing can be formatted exactly if the volume has a size that a volume can have and the
/// backing has room for it; the two requests write the first two blocks and make them durable.
pub proof fn law_format(
    volume_bytes: u64,
    backing_bytes: u64,
    volume_id: u64,
    result: Result<(Request, Request), StorageError>,
)
    requires
        call_ensures(crate::recovery::format, (volume_bytes, backing_bytes, volume_id), result),
    ensures
        ({
            let blocks = volume_bytes / 4096;
            let needed = 4 + 2 * ((4 * blocks + 4095) / 4096) + 2 * ((8 * blocks + 4095) / 4096);
            &&& result is Ok <==> volume_bytes % 4096 == 0 && 1 <= blocks <= 0x8000_0000
                && backing_bytes % 4096 == 0 && needed <= backing_bytes / 4096 <= 0x1_0000_0000
            &&& result matches Ok((write, sync)) ==> {
                &&& write@.op matches Op::Write { block, .. } && block == 0
                &&& sync@.op is Sync
            }
        }),
{
    law_format_refusals(volume_bytes, backing_bytes);
    if let Ok((write, sync)) = result {
        let both = seq![write@, sync@];
        assert(both[0] == write@ && both[1] == sync@);
    }
}

/// Law: a volume is opened with a bound of 64 MiB on what is replayed unless another is asked for,
/// and any bound that leaves room for the greatest record and is a whole number of blocks is taken
/// as it is.
pub proof fn law_open(
    backing_bytes: u64,
    options: VolumeOpenOptions,
    plain: Opening,
    result: Result<Opening, StorageError>,
)
    requires
        call_ensures(open, (backing_bytes,), plain),
        call_ensures(open_with_options, (backing_bytes, options), result),
    ensures
        plain@.options.checkpoint_after_bytes == 64 * 1024 * 1024,
        plain@.backing_bytes == backing_bytes,
        plain@.phase is Descriptors,
        result is Ok <==> options.checkpoint_after_bytes % 4096 == 0
            && options.checkpoint_after_bytes >= 339 * 4096,
        result matches Ok(opening) ==> {
            &&& opening@.options == options
            &&& opening@.backing_bytes == backing_bytes
            &&& opening@.phase is Descriptors
        },
        result matches Err(error) ==> error is InvalidCheckpointAfterBytes,
{
}

/// Law: opening says that there is no memory only where room for the map of the checkpoint at hand
/// was refused, whatever the size of the volume. Where it was not refused, the step is the one that
/// the bytes read decide: so a volume that the bytes describe is opened.
pub proof fn law_opening_needs_only_memory(opening: Opening, reply: Reply, step: OpenStep)
    requires
        opening.wf(),
        call_ensures(Opening::advance, (opening, reply), step),
    ensures
        (forall|count: u32| !#[trigger] refused_room(count)) ==> step@ == opening@.next(
            reply_view(reply),
        ),
        step@ != opening@.next(reply_view(reply)) ==> {
            &&& step@ == OpenStepView::Failed(StorageError::Io(IoFailure::OutOfMemory))
            &&& opening@.next(reply_view(reply)) matches OpenStepView::Perform(next)
                && refused_room(next.map_entries()) && next.map_entries() > 0
        },
        opening@.phase is Replay || opening@.phase is Clear ==> step@ == opening@.next(
            reply_view(reply),
        ),
{
}

/// Law: a volume of any size can be laid out, from one block up to half of the address space.
pub proof fn law_layout_for(volume_bytes: u64, result: Result<(u32, Layout), StorageError>)
    requires
        call_ensures(layout_for, (volume_bytes,), result),
    ensures
        result is Ok <==> volume_bytes % 4096 == 0 && 4096 <= volume_bytes <= 0x800_0000_0000,
        result matches Ok((blocks, layout)) ==> {
            &&& blocks as int * 4096 == volume_bytes
            &&& layout.green_physical_map_start == 2
            &&& layout.log_start == 2 + 2 * layout.physical_map_blocks + 2
                * layout.checksum_map_blocks
            &&& 4096 * (layout.physical_map_blocks - 1) < 4 * blocks <= 4096
                * layout.physical_map_blocks
            &&& 4096 * (layout.checksum_map_blocks - 1) < 8 * blocks <= 4096
                * layout.checksum_map_blocks
        },
        result matches Err(error) ==> error is InvalidVolumeSize,
{
    if let Ok((blocks, layout)) = result {
        law_layout_regions_are_adjacent(blocks as int);
    }
}

/// Law: of one queued request at most one is ever counted as submitted; an interruption goes on
/// waiting, and anything else gives the ring up.
pub proof fn law_submissions(submission: Submission, step: SubmissionStep)
    ensures
        forall|wait: &mut Wait|
            (#[trigger] call_ensures(Wait::on_submission, (wait, submission), step) && wait.wf())
                ==> {
                &&& step is Poll <==> submission is Interrupted || (submission
                    matches Submission::Submitted(count) && count + wait.submitted <= 1)
                &&& submission matches Submission::Failed(number) ==> step
                    == SubmissionStep::Destroy(IoFailure::Os(number))
                &&& final(wait).tag == wait.tag
                &&& final(wait).expected_result == wait.expected_result
                &&& final(wait).submitted <= 1
            },
{
}

/// Law: the device has exactly the volume's size, in blocks of 4096 bytes and in sectors of 512,
/// takes requests of one block at most, and has a cache that must be flushed; the driver is given
/// one queue with room for one request of one block.
pub proof fn law_served_device(
    volume_blocks: u32,
    target: TargetConfiguration,
    device_id: i32,
    settings: ControllerSettings,
)
    requires
        call_ensures(target_configuration, (volume_blocks,), target),
        call_ensures(controller_settings, (device_id,), settings),
    ensures
        target.device_bytes == volume_blocks as int * 4096,
        target.dev_sectors as int * 512 == target.device_bytes,
        target.logical_bs_shift == 12 && target.physical_bs_shift == 12,
        target.io_min_shift == 12 && target.io_opt_shift == 12,
        target.max_sectors as int * 512 == 4096,
        target.types == 1 && target.attrs == 4,
        settings.device_id == device_id,
        settings.queues == 1 && settings.depth == 1 && settings.io_buffer_bytes == 4096,
{
}

} // verus!
