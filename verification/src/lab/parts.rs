//! What each step of the ublk lab consists of.

use crate::lab::campaign::LabStep;
#[allow(unused_imports)]
use crate::lab::campaign::Held;
use crate::lab::device::RemoveAfterKillIdentity;
use vstd::prelude::*;

verus! {

/// One part of a step.
#[derive(Clone, Copy, Debug, PartialEq, Eq, Structural)]
pub enum Part {
    /// Record which scenario starts.
    Announce,
    /// Demand that nothing of an earlier repetition is left.
    RequireFresh,
    CreateDirectory,
    ValidateDirectory,
    /// Format a backing in the directory, which must succeed.
    RunFormat,
    /// Validate the new backing and keep its identity.
    TakeBacking,
    /// Validate the directory and the backing in it.
    ValidateBacking,
    /// Demand that no daemon is running.
    RequireNoDaemon,
    /// Start a daemon, with the failpoint or without.
    Serve { failpoint: bool },
    /// Wait for the device that the daemon announces.
    AwaitReadiness,
    /// Demand that the recorded device is there and the same.
    RequireMatching,
    /// Run a job of the scenario.
    RunFio { job: usize },
    /// Record what the job printed, and demand that it succeeded.
    RequireFioSuccess { job: usize },
    /// Record what the job printed, and demand that it filled the device.
    RequireExhaustion,
    /// Demand that a daemon is running.
    RequireDaemon,
    /// Ask the daemon to end.
    Terminate,
    /// Demand that the daemon ended well.
    AwaitGracefulEnd,
    /// Wait for the daemon to reach the failpoint, and record it.
    AwaitFailpoint,
    /// Kill the daemon.
    Kill,
    /// Demand that the daemon was killed, and record it.
    AwaitKilled,
    /// Clean up the daemon's process group.
    CleanChild,
    /// Wait until nothing shows the device any more.
    AwaitDisappearance,
    /// Record what the daemon printed.
    LogDaemon,
    /// Wait until the killed daemon's device is gone or may be deleted.
    AwaitRemovable,
    /// Demand that the recorded device is the same, though it may have stopped.
    RequireDeletable,
    /// Delete the device, which must succeed.
    RunDelete,
    /// Record that there is no device.
    ForgetDevice,
    /// Run a second daemon, which must be refused the backing.
    RunSecond,
    /// Remove the directory and what is in it.
    RemoveDirectory,
    /// Record that the scenario passed.
    Pass,
}

/// The parts of a step.
///
/// Removing a killed daemon's device goes on as [`removal_list`] says.
pub open spec fn part_list(step: LabStep) -> Seq<Part> {
    match step {
        LabStep::Announce => seq![Part::Announce],
        LabStep::Setup => seq![
            Part::RequireFresh,
            Part::CreateDirectory,
            Part::ValidateDirectory,
            Part::RunFormat,
            Part::TakeBacking,
            Part::ValidateBacking,
        ],
        LabStep::Start { failpoint } => seq![
            Part::RequireNoDaemon,
            Part::ValidateBacking,
            Part::Serve { failpoint },
            Part::AwaitReadiness,
        ],
        LabStep::Fio { job } => seq![
            Part::RequireMatching,
            Part::ValidateBacking,
            Part::RunFio { job },
            Part::RequireFioSuccess { job },
        ],
        LabStep::Exhaust { job } => seq![
            Part::RequireMatching,
            Part::ValidateBacking,
            Part::RunFio { job },
            Part::RequireExhaustion,
        ],
        LabStep::Stop => seq![
            Part::RequireDaemon,
            Part::Terminate,
            Part::AwaitGracefulEnd,
            Part::CleanChild,
            Part::AwaitDisappearance,
            Part::LogDaemon,
            Part::ForgetDevice,
        ],
        LabStep::Terminate => seq![Part::Terminate],
        LabStep::AwaitFailpoint => seq![Part::AwaitFailpoint],
        LabStep::Kill => seq![
            Part::RequireDaemon,
            Part::Kill,
            Part::AwaitKilled,
            Part::CleanChild,
            Part::LogDaemon,
        ],
        LabStep::RemoveAfterKill => seq![Part::AwaitRemovable],
        LabStep::ProveLock => seq![Part::RunSecond],
        LabStep::ValidateBacking => seq![Part::ValidateBacking],
        LabStep::RemoveDirectory => seq![Part::RemoveDirectory],
        LabStep::Pass => seq![Part::Pass],
    }
}

/// What is left to do about a killed daemon's device.
pub open spec fn removal_list(identity: RemoveAfterKillIdentity) -> Seq<Part> {
    match identity {
        RemoveAfterKillIdentity::Absent => seq![Part::ForgetDevice],
        RemoveAfterKillIdentity::Deletable => seq![
            Part::RequireDeletable,
            Part::RunDelete,
            Part::AwaitDisappearance,
            Part::ForgetDevice,
        ],
    }
}

/// The parts of a step.
pub fn parts(step: LabStep) -> (found: Vec<Part>)
    ensures
        found@ == part_list(step),
{
    let mut found: Vec<Part> = Vec::new();
    match step {
        LabStep::Announce => {
            found.push(Part::Announce);
        },
        LabStep::Setup => {
            found.push(Part::RequireFresh);
            found.push(Part::CreateDirectory);
            found.push(Part::ValidateDirectory);
            found.push(Part::RunFormat);
            found.push(Part::TakeBacking);
            found.push(Part::ValidateBacking);
        },
        LabStep::Start { failpoint } => {
            found.push(Part::RequireNoDaemon);
            found.push(Part::ValidateBacking);
            found.push(Part::Serve { failpoint });
            found.push(Part::AwaitReadiness);
        },
        LabStep::Fio { job } => {
            found.push(Part::RequireMatching);
            found.push(Part::ValidateBacking);
            found.push(Part::RunFio { job });
            found.push(Part::RequireFioSuccess { job });
        },
        LabStep::Exhaust { job } => {
            found.push(Part::RequireMatching);
            found.push(Part::ValidateBacking);
            found.push(Part::RunFio { job });
            found.push(Part::RequireExhaustion);
        },
        LabStep::Stop => {
            found.push(Part::RequireDaemon);
            found.push(Part::Terminate);
            found.push(Part::AwaitGracefulEnd);
            found.push(Part::CleanChild);
            found.push(Part::AwaitDisappearance);
            found.push(Part::LogDaemon);
            found.push(Part::ForgetDevice);
        },
        LabStep::Terminate => {
            found.push(Part::Terminate);
        },
        LabStep::AwaitFailpoint => {
            found.push(Part::AwaitFailpoint);
        },
        LabStep::Kill => {
            found.push(Part::RequireDaemon);
            found.push(Part::Kill);
            found.push(Part::AwaitKilled);
            found.push(Part::CleanChild);
            found.push(Part::LogDaemon);
        },
        LabStep::RemoveAfterKill => {
            found.push(Part::AwaitRemovable);
        },
        LabStep::ProveLock => {
            found.push(Part::RunSecond);
        },
        LabStep::ValidateBacking => {
            found.push(Part::ValidateBacking);
        },
        LabStep::RemoveDirectory => {
            found.push(Part::RemoveDirectory);
        },
        LabStep::Pass => {
            found.push(Part::Pass);
        },
    }
    assert(found@ =~= part_list(step));
    found
}

/// What is left to do about a killed daemon's device.
pub fn removal_parts(identity: RemoveAfterKillIdentity) -> (found: Vec<Part>)
    ensures
        found@ == removal_list(identity),
{
    let mut found: Vec<Part> = Vec::new();
    match identity {
        RemoveAfterKillIdentity::Absent => {},
        RemoveAfterKillIdentity::Deletable => {
            found.push(Part::RequireDeletable);
            found.push(Part::RunDelete);
            found.push(Part::AwaitDisappearance);
        },
    }
    found.push(Part::ForgetDevice);
    assert(found@ =~= removal_list(identity));
    found
}

/// Law: the outcome of whatever a step does is demanded before the step is over. A job is run only
/// on the recorded device and a validated backing, and what it came to is judged next; a daemon is
/// served only on a validated backing with no other daemon, and its device awaited; one that was
/// asked to end must end well, and one that was killed must have been killed, before its group is
/// cleaned up; and a directory that was made is validated before a backing is formatted in it.
pub proof fn law_every_outcome_is_demanded(step: LabStep, index: int)
    requires
        0 <= index < part_list(step).len(),
    ensures
        ({
            let list = part_list(step);
            let last = list.len() - 1;
            &&& step matches LabStep::Fio { job } ==> list == seq![
                Part::RequireMatching,
                Part::ValidateBacking,
                Part::RunFio { job },
                Part::RequireFioSuccess { job },
            ]
            &&& step matches LabStep::Exhaust { job } ==> list == seq![
                Part::RequireMatching,
                Part::ValidateBacking,
                Part::RunFio { job },
                Part::RequireExhaustion,
            ]
            &&& list[index] is RunFio ==> index + 1 == last && (list[last] is RequireFioSuccess
                || list[last] is RequireExhaustion)
            &&& list[index] is Serve ==> index + 1 == last && list[last] is AwaitReadiness && list[0]
                is RequireNoDaemon && list[index - 1] is ValidateBacking
            &&& list[index] is Kill ==> list[index + 1] is AwaitKilled && list[index + 2]
                is CleanChild
            &&& list[index] is CleanChild ==> list[index - 1] is AwaitKilled || (list[index - 1]
                is AwaitGracefulEnd && list[index - 2] is Terminate && list[index + 1]
                is AwaitDisappearance && list[last] is ForgetDevice)
            &&& list[index] is RunFormat ==> list[index - 1] is ValidateDirectory && list[index - 2]
                is CreateDirectory && list[0] is RequireFresh && list[index + 1] is TakeBacking
                && list[index + 2] is ValidateBacking
            &&& step matches LabStep::Start { failpoint } ==> list[2] == Part::Serve { failpoint }
            &&& list[index] is ForgetDevice ==> list[index - 1] is LogDaemon && list[index - 2]
                is AwaitDisappearance
        }),
{
}

/// Law: each step does what its name says: exactly one step makes the directory, formats, runs the
/// second daemon, awaits the failpoint, removes the directory or records a pass, and what a killed
/// daemon left is deleted only after it was found to be the recorded device, and forgotten only
/// when it is gone.
pub proof fn law_steps_hold_their_parts(step: LabStep, identity: RemoveAfterKillIdentity)
    ensures
        part_list(step).contains(Part::CreateDirectory) <==> step is Setup,
        part_list(step).contains(Part::RunFormat) <==> step is Setup,
        part_list(step).contains(Part::RunSecond) <==> step is ProveLock,
        part_list(step).contains(Part::AwaitFailpoint) <==> step is AwaitFailpoint,
        part_list(step).contains(Part::RemoveDirectory) <==> step is RemoveDirectory,
        part_list(step).contains(Part::Pass) <==> step is Pass,
        part_list(step).contains(Part::Announce) <==> step is Announce,
        part_list(step).contains(Part::Kill) <==> step is Kill,
        part_list(step).contains(Part::AwaitKilled) <==> step is Kill,
        part_list(step).contains(Part::AwaitGracefulEnd) <==> step is Stop,
        part_list(step).contains(Part::AwaitRemovable) <==> step is RemoveAfterKill,
        part_list(step).contains(Part::Terminate) <==> step is Stop || step is Terminate,
        removal_list(identity) == (if identity is Absent {
            seq![Part::ForgetDevice]
        } else {
            seq![
                Part::RequireDeletable,
                Part::RunDelete,
                Part::AwaitDisappearance,
                Part::ForgetDevice,
            ]
        }),
{
    let list = part_list(step);
    match step {
        LabStep::Setup => {
            assert(list[1] == Part::CreateDirectory && list[3] == Part::RunFormat);
        },
        LabStep::Stop => {
            assert(list[1] == Part::Terminate && list[2] == Part::AwaitGracefulEnd);
        },
        LabStep::Kill => {
            assert(list[1] == Part::Kill && list[2] == Part::AwaitKilled);
        },
        LabStep::Start { .. } | LabStep::Fio { .. } | LabStep::Exhaust { .. } => {},
        _ => {
            assert(list.len() == 1);
            assert(list.contains(list[0]));
        },
    }
}

/// Whether a part has what it works on, and would not lose track of anything.
pub open spec fn part_permitted(held: Held, part: Part) -> bool {
    match part {
        Part::Announce | Part::Pass => true,
        Part::RequireFresh => !held.directory && !held.backing && !held.child,
        Part::CreateDirectory => !held.directory,
        Part::ValidateDirectory | Part::RunFormat => held.directory,
        Part::TakeBacking => held.directory && !held.backing,
        Part::ValidateBacking => held.directory && held.backing,
        Part::RequireNoDaemon => !held.child && !held.device,
        Part::Serve { .. } => held.directory && held.backing && !held.child && !held.device,
        Part::AwaitReadiness => held.child && !held.device,
        Part::RequireMatching => held.device,
        Part::RunFio { .. } | Part::RequireFioSuccess { .. } | Part::RequireExhaustion => {
            held.directory && held.device
        },
        Part::RequireDaemon
        | Part::Terminate
        | Part::AwaitGracefulEnd
        | Part::AwaitFailpoint
        | Part::Kill
        | Part::AwaitKilled
        | Part::CleanChild => held.child,
        Part::AwaitDisappearance
        | Part::AwaitRemovable
        | Part::RequireDeletable
        | Part::RunDelete
        | Part::ForgetDevice => held.device && !held.child,
        Part::LogDaemon => !held.child,
        Part::RunSecond => held.directory && held.backing && held.child,
        Part::RemoveDirectory => held.directory && !held.child && !held.device,
    }
}

/// What is held after a part that succeeded.
pub open spec fn after_part(held: Held, part: Part) -> Held {
    match part {
        Part::CreateDirectory => Held { directory: true, ..held },
        Part::TakeBacking => Held { backing: true, ..held },
        Part::Serve { .. } => Held { child: true, ..held },
        Part::AwaitReadiness => Held { device: true, ..held },
        Part::CleanChild => Held { child: false, ..held },
        Part::ForgetDevice => Held { device: false, ..held },
        Part::RemoveDirectory => Held { directory: false, backing: false, ..held },
        _ => held,
    }
}

/// What is held after the first `count` parts, if each is permitted in its turn.
pub open spec fn held_after(held: Held, list: Seq<Part>, count: int) -> Option<Held>
    decreases count,
{
    if count <= 0 {
        Some(held)
    } else {
        match held_after(held, list, count - 1) {
            None => None,
            Some(before) => if part_permitted(before, list[count - 1]) {
                Some(after_part(before, list[count - 1]))
            } else {
                None
            },
        }
    }
}

/// All parts of a step, a killed daemon's device being found as `identity`.
pub open spec fn whole_step(step: LabStep, identity: RemoveAfterKillIdentity) -> Seq<Part> {
    if step is RemoveAfterKill {
        part_list(step) + removal_list(identity)
    } else {
        part_list(step)
    }
}

/// Law: wherever a step is permitted, each of its parts is permitted in its turn, and together
/// they do to what is held what the step does.
pub proof fn law_parts_make_up_their_step(
    held: Held,
    step: LabStep,
    identity: RemoveAfterKillIdentity,
)
    requires
        held.permits(step),
    ensures
        held_after(held, whole_step(step, identity), whole_step(step, identity).len() as int)
            == Some(held.after(step)),
{
    reveal_with_fuel(held_after, 8);
    match step {
        LabStep::Setup => {
            assert(part_list(step).len() == 6);
        },
        LabStep::Start { .. } | LabStep::Fio { .. } | LabStep::Exhaust { .. } => {
            assert(part_list(step).len() == 4);
        },
        LabStep::Stop => {
            assert(part_list(step).len() == 7);
        },
        LabStep::Kill => {
            assert(part_list(step).len() == 5);
        },
        LabStep::RemoveAfterKill => {
            match identity {
                RemoveAfterKillIdentity::Absent => {
                    assert(whole_step(step, identity).len() == 2);
                },
                RemoveAfterKillIdentity::Deletable => {
                    assert(whole_step(step, identity).len() == 5);
                },
            }
        },
        _ => {
            assert(part_list(step).len() == 1);
        },
    }
}

} // verus!
