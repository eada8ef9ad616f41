//! One repetition of the ext4 lab, operation by operation.

use crate::lab::ext4::{steps, PreflightStep, Step, FIELD_COUNT, PREFLIGHT};
#[allow(unused_imports)]
use crate::lab::ext4::step_list;
use vstd::prelude::*;

verus! {

/// One operation of the lab.
#[derive(Clone, Copy, Debug, PartialEq, Eq, Structural)]
pub enum LabOp {
    /// Read the clock against the suite's deadline.
    Deadline,
    /// Record which step starts.
    Record(Step),
    /// Validate the lab's directory.
    ValidateDirectory,
    MakeMountDirectory,
    RunFormat,
    /// Record the identity of the backing that was formatted.
    RecordBacking,
    ValidateBacking,
    /// Demand that no daemon and no device is left.
    RequireStopped,
    /// Start the daemon.
    Serve,
    /// Wait for the device that the daemon announces.
    AwaitDevice,
    RequireUnmounted,
    /// Record the device.
    RecordDevice,
    /// Compare a setting of the device with what it must be.
    RequireField(usize),
    /// Make or check the file system.
    RunFilesystem(Step),
    /// Record that the file system may be mounted from here on.
    NoteMountAttempt,
    HelperMount,
    HelperUnmount,
    RequireMounted,
    /// Record the identity of the mount.
    RecordMount,
    /// Have the files written or read, and compare what the worker prints.
    RunWorkload(bool),
    /// Demand that no worker is left.
    RequireWorkloadReaped,
    /// Record that nothing is mounted.
    ForgetMount,
    /// Record the device's counters.
    RecordCounters,
    /// Ask the daemon to end.
    Terminate,
    /// Demand that the daemon ended well, and clean up its process group.
    AwaitCleanStop,
    /// Wait until nothing shows the device any more.
    AwaitGone,
    /// Record what the daemon printed.
    LogDaemon,
    /// Demand that the daemon has complained of nothing.
    CheckDaemonErrors,
    RequireNothingAlive,
    RequireNoMountBelow,
    RequireMountDirectory,
    RequireOwnEntries,
    RemoveMountDirectory,
    CleanDirectory,
    RequireRemoved,
}

/// The operations of a step.
pub open spec fn ops_of(step: Step) -> Seq<LabOp> {
    match step {
        Step::Format => seq![
            LabOp::ValidateDirectory,
            LabOp::MakeMountDirectory,
            LabOp::RunFormat,
            LabOp::RecordBacking,
            LabOp::ValidateBacking,
        ],
        Step::Start => seq![
            LabOp::RequireStopped,
            LabOp::ValidateBacking,
            LabOp::Deadline,
            LabOp::Serve,
            LabOp::AwaitDevice,
            LabOp::RequireUnmounted,
            LabOp::RecordDevice,
            LabOp::RequireField(0),
            LabOp::RequireField(1),
            LabOp::RequireField(2),
        ],
        Step::Mkfs => seq![LabOp::RequireUnmounted, LabOp::RunFilesystem(step)],
        Step::Check(_) => seq![LabOp::RequireUnmounted, LabOp::RunFilesystem(step)],
        Step::Mount => seq![
            LabOp::RequireUnmounted,
            LabOp::NoteMountAttempt,
            LabOp::HelperMount,
            LabOp::RequireMounted,
            LabOp::RecordMount,
        ],
        Step::Populate => seq![LabOp::RequireMounted, LabOp::RunWorkload(true)],
        Step::Verify => seq![LabOp::RequireMounted, LabOp::RunWorkload(false)],
        Step::Unmount => seq![
            LabOp::RequireWorkloadReaped,
            LabOp::RequireMounted,
            LabOp::HelperUnmount,
            LabOp::RequireUnmounted,
            LabOp::ForgetMount,
        ],
        Step::Stop => stop_list(),
    }
}

/// The operations that stop the daemon.
pub open spec fn stop_list() -> Seq<LabOp> {
    seq![
        LabOp::RequireUnmounted,
        LabOp::RecordCounters,
        LabOp::Deadline,
        LabOp::Terminate,
        LabOp::AwaitCleanStop,
        LabOp::AwaitGone,
        LabOp::LogDaemon,
    ]
}

/// The operations of a step and what surrounds every step.
pub open spec fn surrounded(step: Step) -> Seq<LabOp> {
    seq![LabOp::Deadline, LabOp::Record(step)] + ops_of(step) + seq![LabOp::CheckDaemonErrors]
}

/// The operations that take everything down when all steps have passed.
pub open spec fn finish_list() -> Seq<LabOp> {
    seq![
        LabOp::RequireNothingAlive,
        LabOp::ValidateBacking,
        LabOp::RequireNoMountBelow,
        LabOp::RequireMountDirectory,
        LabOp::RequireOwnEntries,
        LabOp::RemoveMountDirectory,
        LabOp::CleanDirectory,
        LabOp::RequireRemoved,
    ]
}

/// The operations of the first `count` steps.
pub open spec fn lifecycle_list(count: int) -> Seq<LabOp>
    decreases count,
{
    if count <= 0 {
        Seq::empty()
    } else {
        lifecycle_list(count - 1) + surrounded(step_list()[count - 1])
    }
}

fn push_start(ops: &mut Vec<LabOp>)
    ensures
        final(ops)@ == old(ops)@ + ops_of(Step::Start),
{
    let ghost before = ops@;
    ops.push(LabOp::RequireStopped);
    ops.push(LabOp::ValidateBacking);
    ops.push(LabOp::Deadline);
    ops.push(LabOp::Serve);
    ops.push(LabOp::AwaitDevice);
    ops.push(LabOp::RequireUnmounted);
    ops.push(LabOp::RecordDevice);
    ops.push(LabOp::RequireField(0));
    ops.push(LabOp::RequireField(1));
    ops.push(LabOp::RequireField(2));
    assert(ops@ =~= before + ops_of(Step::Start));
}

fn push_stop(ops: &mut Vec<LabOp>)
    ensures
        final(ops)@ == old(ops)@ + stop_list(),
{
    let ghost before = ops@;
    ops.push(LabOp::RequireUnmounted);
    ops.push(LabOp::RecordCounters);
    ops.push(LabOp::Deadline);
    ops.push(LabOp::Terminate);
    ops.push(LabOp::AwaitCleanStop);
    ops.push(LabOp::AwaitGone);
    ops.push(LabOp::LogDaemon);
    assert(ops@ =~= before + stop_list());
}

fn push_step(ops: &mut Vec<LabOp>, step: Step)
    ensures
        final(ops)@ == old(ops)@ + surrounded(step),
{
    let ghost before = ops@;
    ops.push(LabOp::Deadline);
    ops.push(LabOp::Record(step));
    let ghost head = seq![LabOp::Deadline, LabOp::Record(step)];
    assert(ops@ =~= before + head);
    match step {
        Step::Format => {
            ops.push(LabOp::ValidateDirectory);
            ops.push(LabOp::MakeMountDirectory);
            ops.push(LabOp::RunFormat);
            ops.push(LabOp::RecordBacking);
            ops.push(LabOp::ValidateBacking);
        },
        Step::Start => push_start(ops),
        Step::Mkfs | Step::Check(_) => {
            ops.push(LabOp::RequireUnmounted);
            ops.push(LabOp::RunFilesystem(step));
        },
        Step::Mount => {
            ops.push(LabOp::RequireUnmounted);
            ops.push(LabOp::NoteMountAttempt);
            ops.push(LabOp::HelperMount);
            ops.push(LabOp::RequireMounted);
            ops.push(LabOp::RecordMount);
        },
        Step::Populate => {
            ops.push(LabOp::RequireMounted);
            ops.push(LabOp::RunWorkload(true));
        },
        Step::Verify => {
            ops.push(LabOp::RequireMounted);
            ops.push(LabOp::RunWorkload(false));
        },
        Step::Unmount => {
            ops.push(LabOp::RequireWorkloadReaped);
            ops.push(LabOp::RequireMounted);
            ops.push(LabOp::HelperUnmount);
            ops.push(LabOp::RequireUnmounted);
            ops.push(LabOp::ForgetMount);
        },
        Step::Stop => push_stop(ops),
    }
    assert(ops@ =~= before + head + ops_of(step));
    ops.push(LabOp::CheckDaemonErrors);
    assert(ops@ =~= before + surrounded(step));
}

/// The operations that stop the daemon.
pub fn stop_ops() -> (ops: Vec<LabOp>)
    ensures
        ops@ == stop_list(),
{
    let mut ops: Vec<LabOp> = Vec::new();
    push_stop(&mut ops);
    assert(ops@ =~= stop_list());
    ops
}

/// The operations that unmount the file system.
pub fn unmount_ops() -> (ops: Vec<LabOp>)
    ensures
        ops@ == ops_of(Step::Unmount),
{
    let mut ops: Vec<LabOp> = Vec::new();
    ops.push(LabOp::RequireWorkloadReaped);
    ops.push(LabOp::RequireMounted);
    ops.push(LabOp::HelperUnmount);
    ops.push(LabOp::RequireUnmounted);
    ops.push(LabOp::ForgetMount);
    assert(ops@ =~= ops_of(Step::Unmount));
    ops
}

/// The steps of the preflight.
pub fn preflight_steps() -> (found: Vec<PreflightStep>)
    ensures
        found@ == PREFLIGHT@,
{
    let mut found: Vec<PreflightStep> = Vec::new();
    let mut i: usize = 0;
    while i < 15
        invariant
            i <= 15,
            found@ == PREFLIGHT@.take(i as int),
        decreases 15 - i,
    {
        found.push(PREFLIGHT[i]);
        assert(found@ =~= PREFLIGHT@.take(i + 1));
        i = i + 1;
    }
    assert(found@ =~= PREFLIGHT@);
    found
}

/// The operations of one repetition behind its preflight: all steps, then taking everything down.
pub fn repetition_ops() -> (ops: Vec<LabOp>)
    ensures
        ops@ == lifecycle_list(17) + finish_list(),
{
    let mut ops: Vec<LabOp> = Vec::new();
    let plan = steps();
    let mut i: usize = 0;
    assert(ops@ =~= lifecycle_list(0));
    while i < 17
        invariant
            i <= 17,
            plan@ == step_list(),
            ops@ == lifecycle_list(i as int),
        decreases 17 - i,
    {
        assert(plan@[i as int] == step_list()[i as int]);
        push_step(&mut ops, plan[i]);
        i = i + 1;
    }
    ops.push(LabOp::RequireNothingAlive);
    ops.push(LabOp::ValidateBacking);
    ops.push(LabOp::RequireNoMountBelow);
    ops.push(LabOp::RequireMountDirectory);
    ops.push(LabOp::RequireOwnEntries);
    ops.push(LabOp::RemoveMountDirectory);
    ops.push(LabOp::CleanDirectory);
    ops.push(LabOp::RequireRemoved);
    assert(ops@ =~= lifecycle_list(17) + finish_list());
    ops
}

/// Law: what surrounds the operations of every step: the suite's deadline is read and the step
/// recorded before any of them, and behind the last one the daemon is demanded to have complained
/// of nothing.
pub proof fn law_every_step_is_surrounded(step: Step, index: int)
    ensures
        surrounded(step).len() == ops_of(step).len() + 3,
        surrounded(step)[0] is Deadline,
        surrounded(step)[1] == LabOp::Record(step),
        surrounded(step).last() is CheckDaemonErrors,
        0 <= index < ops_of(step).len() ==> surrounded(step)[index + 2] == ops_of(step)[index],
{
}

/// Law: what each step does. It works on the file system only while that is known to be unmounted,
/// and with the files only while it is known to be mounted; what was mounted or unmounted is looked
/// at again before the step is over; a daemon is served only on a validated backing when none is
/// left, and its device is recorded and compared with all three settings; and one that was asked to
/// end is waited for, and its device too.
pub proof fn law_steps_do_what_they_say(step: Step)
    ensures
        step is Mkfs || step is Check ==> ops_of(step) == seq![
            LabOp::RequireUnmounted,
            LabOp::RunFilesystem(step),
        ],
        step is Populate ==> ops_of(step) == seq![LabOp::RequireMounted, LabOp::RunWorkload(true)],
        step is Verify ==> ops_of(step) == seq![LabOp::RequireMounted, LabOp::RunWorkload(false)],
        step is Mount ==> {
            &&& ops_of(step).len() == 5
            &&& ops_of(step)[0] is RequireUnmounted
            &&& ops_of(step)[1] is NoteMountAttempt
            &&& ops_of(step)[2] is HelperMount
            &&& ops_of(step)[3] is RequireMounted
            &&& ops_of(step)[4] is RecordMount
        },
        step is Unmount ==> {
            &&& ops_of(step).len() == 5
            &&& ops_of(step)[0] is RequireWorkloadReaped
            &&& ops_of(step)[1] is RequireMounted
            &&& ops_of(step)[2] is HelperUnmount
            &&& ops_of(step)[3] is RequireUnmounted
            &&& ops_of(step)[4] is ForgetMount
        },
        step is Format ==> {
            &&& ops_of(step).len() == 5
            &&& ops_of(step)[0] is ValidateDirectory
            &&& ops_of(step)[1] is MakeMountDirectory
            &&& ops_of(step)[2] is RunFormat
            &&& ops_of(step)[3] is RecordBacking
            &&& ops_of(step)[4] is ValidateBacking
        },
        step is Start ==> {
            &&& ops_of(step).len() == 10
            &&& ops_of(step)[0] is RequireStopped
            &&& ops_of(step)[1] is ValidateBacking
            &&& ops_of(step)[2] is Deadline
            &&& ops_of(step)[3] is Serve
            &&& ops_of(step)[4] is AwaitDevice
            &&& ops_of(step)[5] is RequireUnmounted
            &&& ops_of(step)[6] is RecordDevice
            &&& ops_of(step)[7] == LabOp::RequireField(0)
            &&& ops_of(step)[8] == LabOp::RequireField(1)
            &&& ops_of(step)[9] == LabOp::RequireField(2)
        },
        step is Stop ==> {
            &&& ops_of(step).len() == 7
            &&& ops_of(step)[0] is RequireUnmounted
            &&& ops_of(step)[1] is RecordCounters
            &&& ops_of(step)[2] is Deadline
            &&& ops_of(step)[3] is Terminate
            &&& ops_of(step)[4] is AwaitCleanStop
            &&& ops_of(step)[5] is AwaitGone
            &&& ops_of(step)[6] is LogDaemon
        },
{
}

/// Law: a repetition goes through all seventeen steps in their order, leaving out none.
pub proof fn law_repetition_goes_through_all_steps(count: int)
    requires
        0 <= count <= 17,
    ensures
        count == 0 ==> lifecycle_list(count) == Seq::<LabOp>::empty(),
        count > 0 ==> lifecycle_list(count) == lifecycle_list(count - 1) + surrounded(
            step_list()[count - 1],
        ),
{
}

/// Law: nothing is taken down before everything was looked at once more: that nothing is alive,
/// that the backing is the one that was formatted, that nothing is mounted below the directory, and
/// that what is to be removed is the lab's own; and in the end the directory is demanded to be gone.
pub proof fn law_everything_is_checked_before_removal()
    ensures
        finish_list().len() == 8,
        finish_list()[0] is RequireNothingAlive,
        finish_list()[1] is ValidateBacking,
        finish_list()[2] is RequireNoMountBelow,
        finish_list()[3] is RequireMountDirectory,
        finish_list()[4] is RequireOwnEntries,
        finish_list()[5] is RemoveMountDirectory,
        finish_list()[6] is CleanDirectory,
        finish_list()[7] is RequireRemoved,
{
}

/// What a repetition holds at a moment.
pub ghost struct Holding {
    pub directory: bool,
    pub mount_directory: bool,
    pub backing: bool,
    pub daemon: bool,
    pub device: bool,
    pub mount_attempted: bool,
    pub mounted: bool,
    /// Whether the daemon was asked to end.
    pub ending: bool,
}

impl Holding {
    /// A directory and nothing else.
    pub open spec fn fresh() -> Holding {
        Holding {
            directory: true,
            mount_directory: false,
            backing: false,
            daemon: false,
            device: false,
            mount_attempted: false,
            mounted: false,
            ending: false,
        }
    }

    /// A formatted backing beside the mount directory, and no daemon.
    pub open spec fn formatted() -> Holding {
        Holding { mount_directory: true, backing: true, ..Holding::fresh() }
    }

    /// A daemon serves the formatted backing.
    pub open spec fn served() -> Holding {
        Holding { daemon: true, device: true, ..Holding::formatted() }
    }

    /// The served device is mounted.
    pub open spec fn in_use() -> Holding {
        Holding { mount_attempted: true, mounted: true, ..Holding::served() }
    }

    /// Nothing at all.
    pub open spec fn nothing() -> Holding {
        Holding { directory: false, ..Holding::fresh() }
    }

    /// Whether an operation has what it works on, and would not lose track of anything.
    pub open spec fn permits(self, op: LabOp) -> bool {
        match op {
            LabOp::Deadline | LabOp::Record(_) | LabOp::CheckDaemonErrors => true,
            LabOp::ValidateDirectory => self.directory,
            LabOp::MakeMountDirectory => self.directory && !self.mount_directory,
            LabOp::RunFormat | LabOp::RecordBacking => self.directory && !self.daemon,
            LabOp::ValidateBacking => self.directory && self.backing,
            LabOp::RequireStopped => !self.daemon && !self.device,
            LabOp::Serve => self.backing && !self.daemon && !self.device,
            LabOp::AwaitDevice => self.daemon && !self.device,
            LabOp::RequireUnmounted => self.daemon && self.device && !self.mounted,
            LabOp::RecordDevice | LabOp::RecordCounters => self.device,
            LabOp::RequireField(index) => self.device && index < FIELD_COUNT,
            LabOp::RunFilesystem(step) => {
                self.device && !self.mounted && (step is Mkfs || step is Check)
            },
            LabOp::NoteMountAttempt => self.device && !self.mounted,
            LabOp::HelperMount => self.device && !self.mounted && self.mount_attempted,
            LabOp::HelperUnmount => self.device && self.mounted,
            LabOp::RequireMounted | LabOp::RecordMount => self.device && self.mounted,
            LabOp::RunWorkload(_) => self.mounted,
            LabOp::RequireWorkloadReaped => self.mounted,
            LabOp::ForgetMount => !self.mounted,
            LabOp::Terminate => self.daemon && !self.mounted,
            LabOp::AwaitCleanStop => self.daemon && self.ending,
            LabOp::AwaitGone => !self.daemon && self.device,
            LabOp::LogDaemon => !self.daemon,
            LabOp::RequireNothingAlive => {
                !self.daemon && !self.device && !self.mount_attempted && !self.mounted
            },
            LabOp::RequireNoMountBelow => !self.mounted,
            LabOp::RequireMountDirectory => self.mount_directory,
            LabOp::RequireOwnEntries => self.directory,
            LabOp::RemoveMountDirectory => {
                self.mount_directory && !self.mounted && !self.device && !self.daemon
            },
            LabOp::CleanDirectory => {
                self.directory && !self.mount_directory && !self.device && !self.daemon
            },
            LabOp::RequireRemoved => !self.directory,
        }
    }

    /// What is held after an operation that succeeded.
    pub open spec fn after(self, op: LabOp) -> Holding {
        match op {
            LabOp::MakeMountDirectory => Holding { mount_directory: true, ..self },
            LabOp::RecordBacking => Holding { backing: true, ..self },
            LabOp::Serve => Holding { daemon: true, ..self },
            LabOp::AwaitDevice => Holding { device: true, ..self },
            LabOp::NoteMountAttempt => Holding { mount_attempted: true, ..self },
            LabOp::HelperMount => Holding { mounted: true, ..self },
            LabOp::HelperUnmount => Holding { mounted: false, ..self },
            LabOp::ForgetMount => Holding { mount_attempted: false, ..self },
            LabOp::Terminate => Holding { ending: true, ..self },
            LabOp::AwaitCleanStop => Holding { daemon: false, ending: false, ..self },
            LabOp::AwaitGone => Holding { device: false, ..self },
            LabOp::RemoveMountDirectory => Holding { mount_directory: false, ..self },
            LabOp::CleanDirectory => Holding { directory: false, backing: false, ..self },
            _ => self,
        }
    }

    /// What is held after the first `count` operations, if each of them is permitted in its turn.
    pub open spec fn through(self, ops: Seq<LabOp>, count: int) -> Option<Holding>
        decreases count,
    {
        if count <= 0 {
            Some(self)
        } else {
            match self.through(ops, count - 1) {
                None => None,
                Some(held) => if held.permits(ops[count - 1]) {
                    Some(held.after(ops[count - 1]))
                } else {
                    None
                },
            }
        }
    }
}

/// Operations behind others work on what those leave.
proof fn lemma_through_both(held: Holding, first: Seq<LabOp>, second: Seq<LabOp>, count: int)
    requires
        0 <= count <= second.len(),
        held.through(first, first.len() as int) is Some,
    ensures
        held.through(first + second, first.len() + count) == (held.through(
            first,
            first.len() as int,
        )->Some_0).through(second, count),
    decreases count,
{
    if count > 0 {
        lemma_through_both(held, first, second, count - 1);
        assert((first + second)[first.len() + count - 1] == second[count - 1]);
    } else {
        lemma_through_prefix(held, first, second, first.len() as int);
    }
}

/// What stands behind does not matter to what stands before.
proof fn lemma_through_prefix(held: Holding, first: Seq<LabOp>, second: Seq<LabOp>, count: int)
    requires
        0 <= count <= first.len(),
    ensures
        held.through(first + second, count) == held.through(first, count),
    decreases count,
{
    if count > 0 {
        lemma_through_prefix(held, first, second, count - 1);
        assert((first + second)[count - 1] == first[count - 1]);
    }
}

/// What each step does to what is held.
pub open spec fn after_step(held: Holding, step: Step) -> Holding {
    match step {
        Step::Format => Holding::formatted(),
        Step::Start => Holding::served(),
        Step::Mount => Holding::in_use(),
        Step::Unmount => Holding::served(),
        Step::Stop => Holding::formatted(),
        _ => held,
    }
}

/// What a step finds.
pub open spec fn before_step(step: Step) -> Holding {
    match step {
        Step::Format => Holding::fresh(),
        Step::Start => Holding::formatted(),
        Step::Mkfs | Step::Check(_) | Step::Mount | Step::Stop => Holding::served(),
        Step::Populate | Step::Verify | Step::Unmount => Holding::in_use(),
    }
}

proof fn lemma_step(step: Step)
    ensures
        before_step(step).through(surrounded(step), surrounded(step).len() as int) == Some(
            after_step(before_step(step), step),
        ),
{
    reveal_with_fuel(Holding::through, 14);
    let ops = surrounded(step);
    match step {
        Step::Format => {
            assert(ops.len() == 8);
        },
        Step::Start => {
            assert(ops.len() == 13);
        },
        Step::Stop => {
            assert(ops.len() == 10);
        },
        Step::Mount | Step::Unmount => {
            assert(ops.len() == 8);
        },
        _ => {
            assert(ops.len() == 5);
        },
    }
}

/// What is held after the first `count` steps.
pub open spec fn held_by(count: int) -> Holding {
    if count <= 0 {
        Holding::fresh()
    } else {
        after_step(before_step(step_list()[count - 1]), step_list()[count - 1])
    }
}

proof fn lemma_lifecycle(count: int)
    requires
        0 <= count <= 17,
    ensures
        Holding::fresh().through(lifecycle_list(count), lifecycle_list(count).len() as int) == Some(
            held_by(count),
        ),
    decreases count,
{
    if count > 0 {
        lemma_lifecycle(count - 1);
        let step = step_list()[count - 1];
        let before = lifecycle_list(count - 1);
        lemma_step(step);
        lemma_through_both(Holding::fresh(), before, surrounded(step), surrounded(step).len() as int);
        assert(held_by(count - 1) == before_step(step));
        assert(lifecycle_list(count) =~= before + surrounded(step));
    }
}

/// What taking everything down does to what is held.
proof fn lemma_finish()
    ensures
        Holding::formatted().through(finish_list(), 8) == Some(Holding::nothing()),
{
    let held = Holding::formatted();
    let ops = finish_list();
    let bare = Holding { mount_directory: false, ..held };
    assert(held.through(ops, 0) == Some(held));
    assert(ops[0] == LabOp::RequireNothingAlive);
    assert(held.through(ops, 1) == Some(held));
    assert(ops[1] == LabOp::ValidateBacking);
    assert(held.through(ops, 2) == Some(held));
    assert(ops[2] == LabOp::RequireNoMountBelow);
    assert(held.through(ops, 3) == Some(held));
    assert(ops[3] == LabOp::RequireMountDirectory);
    assert(held.through(ops, 4) == Some(held));
    assert(ops[4] == LabOp::RequireOwnEntries);
    assert(held.through(ops, 5) == Some(held));
    assert(ops[5] == LabOp::RemoveMountDirectory);
    assert(held.through(ops, 6) == Some(bare));
    assert(ops[6] == LabOp::CleanDirectory);
    assert(held.through(ops, 7) == Some(Holding::nothing()));
    assert(ops[7] == LabOp::RequireRemoved);
}

/// Law: every operation of a repetition finds what it works on, no operation stops a daemon or
/// removes a directory whose device is mounted, and in the end nothing is left.
pub proof fn law_repetition_leaves_nothing_behind()
    ensures
        ({
            let ops = lifecycle_list(17) + finish_list();
            Holding::fresh().through(ops, ops.len() as int) == Some(Holding::nothing())
        }),
{
    lemma_lifecycle(17);
    lemma_finish();
    assert(step_list()[16] == Step::Stop);
    assert(held_by(17) == Holding::formatted());
    lemma_through_both(Holding::fresh(), lifecycle_list(17), finish_list(), 8);
}

} // verus!
