//! Opening a volume from the first request to the last.

#[allow(unused_imports)]
use crate::bytes::zeros;
#[allow(unused_imports)]
use crate::descriptor::CheckpointSlot;
#[allow(unused_imports)]
use crate::device::{disk_wf, lemma_written_block, performed, Disk};
#[allow(unused_imports)]
use crate::durability::cleared;
#[allow(unused_imports)]
use crate::error::StorageError;
#[allow(unused_imports)]
use crate::recovery::{roots_refusal, OpenStepView, OpeningView, Phase, Recovered};
#[allow(unused_imports)]
use crate::replay::{
    answer, backing_wf, checkpoint_on, intact, law_open_step_keeps_outcome,
    law_opening_makes_progress, recovered_from,
};
#[allow(unused_imports)]
use crate::volume::{State, VolumeOpenOptions};
use vstd::prelude::*;

verus! {

/// The volume or the error with which opening ends, and what it leaves on `disk`, when every
/// request is carried out and answered from there.
pub open spec fn run_opening(view: OpeningView, disk: Disk) -> (Result<State, StorageError>, Disk)
    decreases view.steps_left(),
    when view.wf()
    via lemma_opening_ends
{
    let request = view.request();
    let after = performed(disk, request);
    match view.next(Ok(answer(disk, request))) {
        OpenStepView::Perform(next) => run_opening(next, after),
        OpenStepView::Opened(state) => (Ok(state), after),
        OpenStepView::Failed(error) => (Err(error), after),
    }
}

/// Opening ends.
#[via_fn]
proof fn lemma_opening_ends(view: OpeningView, disk: Disk) {
    law_opening_makes_progress(view, Ok(answer(disk, view.request())));
    if let OpenStepView::Perform(next) = view.next(Ok(answer(disk, view.request()))) {
        law_opening_makes_progress(next, Ok(Seq::empty()));
    }
}

/// `disk` after the blocks behind `recovered` were cleared from number `index` on.
pub open spec fn cleared_from(disk: Disk, recovered: Recovered, index: int) -> Disk {
    Seq::new(
        disk.len(),
        |i: int|
            if recovered.cursor.last_footer_block + index < i
                <= recovered.cursor.last_footer_block + recovered.clear_blocks() {
                zeros(4096)
            } else {
                disk[i]
            },
    )
}

/// What is left of opening once the log has been read.
proof fn lemma_clearing_runs(view: OpeningView, disk: Disk)
    requires
        view.wf(),
        disk_wf(disk),
        view.phase is Clear,
        view.phase->Clear_recovered.cursor.backing_blocks == disk.len(),
    ensures
        run_opening(view, disk) == (
            Ok::<State, StorageError>(view.phase->Clear_recovered.state(view.options)),
            cleared_from(disk, view.phase->Clear_recovered, view.phase->Clear_index),
        ),
    decreases view.phase->Clear_recovered.clear_blocks() - view.phase->Clear_index,
{
    let recovered = view.phase->Clear_recovered;
    let index = view.phase->Clear_index;
    let request = view.request();
    let after = performed(disk, request);
    if index < recovered.clear_blocks() {
        let block = recovered.cursor.last_footer_block + 1 + index;
        let next = OpeningView { phase: Phase::Clear { recovered, index: index + 1 }, ..view };
        lemma_written_block(disk, block, zeros(4096));
        assert(view.next(Ok(answer(disk, request))) == OpenStepView::Perform(next));
        lemma_clearing_runs(next, after);
        assert(cleared_from(after, recovered, index + 1) =~= cleared_from(
            disk,
            recovered,
            index,
        ));
    } else {
        assert(cleared_from(disk, recovered, index) =~= disk);
    }
}

/// What is left of opening.
proof fn lemma_opening_runs(view: OpeningView, disk: Disk)
    requires
        view.wf(),
        backing_wf(disk),
        view.faithful(disk),
        !(view.phase is Clear),
    ensures
        run_opening(view, disk) == (match view.outcome(disk) {
            Ok(recovered) => (
                Ok::<State, StorageError>(recovered.state(view.options)),
                cleared(disk, recovered, recovered.clear_blocks()),
            ),
            Err(error) => (Err::<State, StorageError>(error), disk),
        }),
    decreases view.steps_left(),
{
    let request = view.request();
    let reply = Ok(answer(disk, request));
    law_open_step_keeps_outcome(view, disk);
    law_opening_makes_progress(view, reply);
    assert(performed(disk, request) == disk);
    match view.next(reply) {
        OpenStepView::Perform(next) => {
            law_opening_makes_progress(next, reply);
            if next.phase is Clear {
                let recovered = next.phase->Clear_recovered;
                lemma_clearing_runs(next, disk);
                assert(cleared_from(disk, recovered, 0) =~= cleared(
                    disk,
                    recovered,
                    recovered.clear_blocks(),
                ));
            } else {
                lemma_opening_runs(next, disk);
            }
        },
        _ => {},
    }
}

/// Law: opening ends with what the disk determines. Where a volume is found it is opened and the
/// blocks behind its log are cleared, and nothing else is changed; where none is found, opening
/// fails with the error that says why, and nothing is changed at all.
pub proof fn law_opening_runs_to_its_outcome(disk: Disk, options: VolumeOpenOptions)
    requires
        backing_wf(disk),
        options.valid(),
    ensures
        ({
            let view = OpeningView {
                options,
                backing_bytes: (4096 * disk.len()) as u64,
                phase: Phase::Descriptors,
            };
            run_opening(view, disk) == (match recovered_from(disk) {
                Ok(recovered) => (
                    Ok::<State, StorageError>(recovered.state(options)),
                    cleared(disk, recovered, recovered.clear_blocks()),
                ),
                Err(error) => (Err::<State, StorageError>(error), disk),
            })
        }),
{
    let view = OpeningView {
        options,
        backing_bytes: (4096 * disk.len()) as u64,
        phase: Phase::Descriptors,
    };
    lemma_opening_runs(view, disk);
}

/// Law: a backing whose checkpoints contradict each other, or of which none can be read with its
/// body, is refused as invalid data and left as it is: the two roots belong to different volumes,
/// or they claim the same sequence number for different mappings, or no slot holds a descriptor
/// whose body is intact.
pub proof fn law_unusable_backing_is_refused(disk: Disk, options: VolumeOpenOptions)
    requires
        backing_wf(disk),
        options.valid(),
    ensures
        ({
            let view = OpeningView {
                options,
                backing_bytes: (4096 * disk.len()) as u64,
                phase: Phase::Descriptors,
            };
            let green = checkpoint_on(disk, CheckpointSlot::Green);
            let blue = checkpoint_on(disk, CheckpointSlot::Blue);
            let whole_green = green matches Some(root) && intact(disk, root);
            let whole_blue = blue matches Some(root) && intact(disk, root);
            match roots_refusal(green, blue) {
                Some(error) => {
                    &&& error.kind_of() is InvalidData
                    &&& run_opening(view, disk) == (Err::<State, StorageError>(error), disk)
                },
                None => if !whole_green && !whole_blue {
                    run_opening(view, disk) == (
                        Err::<State, StorageError>(StorageError::NoValidCheckpointBody),
                        disk,
                    )
                } else {
                    run_opening(view, disk).0 is Ok
                },
            }
        }),
        StorageError::NoValidCheckpointBody.kind_of() is InvalidData,
{
    law_opening_runs_to_its_outcome(disk, options);
}

} // verus!
