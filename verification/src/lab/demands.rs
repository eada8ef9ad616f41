//! What the lab and the mount helper let through, demand by demand.

#[allow(unused_imports)]
use crate::lab::campaign::{execute, scenario_steps, LabStep};
#[allow(unused_imports)]
use crate::lab::command::CommandLine;
#[allow(unused_imports)]
use crate::lab::config::{Mode, Span};
#[allow(unused_imports)]
use crate::lab::device::{
    has_line, wait_for_disappearance, wait_for_handshake, wait_for_remove_after_kill_identity, AfterKillStep,
    DeviceIdentityState, PollStep, RemoveAfterKillIdentity,
};
#[allow(unused_imports)]
use crate::lab::error::LabError;
#[allow(unused_imports)]
use crate::lab::ext4::{
    after_stop, check_daemon_errors, deadline, filesystem_command, helper_command,
    require_capture, require_clean_stop, require_control, require_field, require_helper,
    require_manifest, require_mount_directory, require_mount_id, require_normal_user,
    require_nothing_alive, require_own_entry, require_same_helper, require_unchanged_mount_directory,
    start_step, workload_command, Device, StartStep,
};
#[allow(unused_imports)]
use crate::lab::lifecycle::{
    delete_command, require_killed, require_lock_failure, require_success, serve_command,
    validate_fio_command,
};
#[allow(unused_imports)]
use crate::lab::node::{FileIdentity, NodeFacts, Observed};
#[allow(unused_imports)]
use crate::lab::parts::{part_list, parts, Part};
#[allow(unused_imports)]
use crate::lab::process::{
    after_poll, existence_result, reap_available_step, reap_step, signal_result, Exit, Outcome,
    ReapStep, WaitStep,
};
#[allow(unused_imports)]
use crate::lab::scenario::{FioJob, Scenario};
#[allow(unused_imports)]
use crate::lab::suite::{
    list_command, test_command, SuiteAction, SuiteRun, SuiteStep, TestOutcome,
};
#[allow(unused_imports)]
use crate::lab::ublk::{after_creating, CreateStep, Geometry};
#[allow(unused_imports)]
use crate::lab::workload::{
    law_files_are_compared_whole, law_verified_workload_is_the_populated_tree, manifest_text,
    population, verify, verify_file, FileFacts, Tree, WorkloadFacts,
};
#[allow(unused_imports)]
use crate::mount_helper::{
    after_creating_work_directory, check_class_unchanged, check_existing_work_directory,
    check_fixture_backing, check_fixture_parent, check_helper_lock, check_mount_target,
    check_mounted_root, check_new_work_directory, fixture_path, validate_device_parameters,
    WorkStep,
};
#[allow(unused_imports)]
use crate::mounts::{related, require_mounted, require_unmounted, table_view, Mount};
#[allow(unused_imports)]
use crate::paths::same_path;
#[allow(unused_imports)]
use crate::text::{decimal, find_in, trimmed};
use vstd::prelude::*;

verus! {

/// Law: what the helper demands before it mounts: a directory of the caller's that nobody else may
/// enter, in it the caller's regular file of exactly 1 GiB, and an empty mount directory of the
/// caller's on the same file system.
pub proof fn law_helper_fixtures(
    parent: NodeFacts,
    backing: NodeFacts,
    target: NodeFacts,
    uid: u32,
    empty: bool,
    results: (Result<(), LabError>, Result<(), LabError>, Result<(), LabError>),
)
    requires
        call_ensures(check_fixture_parent, (parent, uid), results.0),
        call_ensures(check_fixture_backing, (backing, uid), results.1),
        call_ensures(check_mount_target, (target, parent, uid, empty), results.2),
    ensures
        results.0 is Ok <==> parent.uid == uid && parent.mode & 0o777 == 0o700,
        results.1 is Ok <==> backing.kind is File && backing.uid == uid && backing.len
            == 1024 * 1024 * 1024,
        results.2 is Ok <==> target.uid == uid && target.identity.device
            == parent.identity.device && empty,
{
}

/// Law: what the helper demands of what it has mounted: a root of the recorded device that only root
/// may change, and a work directory that is root's alone while it is new and exactly the caller's
/// when it was there already; and of its lock: a private file of root's with one name.
pub proof fn law_helper_mounted_roots(
    root: NodeFacts,
    work: NodeFacts,
    lock: NodeFacts,
    device: u64,
    uid: u32,
    gid: u32,
    results: (
        Result<(), LabError>,
        Result<(), LabError>,
        Result<(), LabError>,
        Result<(), LabError>,
    ),
)
    requires
        call_ensures(check_mounted_root, (root, device), results.0),
        call_ensures(check_new_work_directory, (work, root), results.1),
        call_ensures(check_existing_work_directory, (work, root, uid, gid), results.2),
        call_ensures(check_helper_lock, (lock,), results.3),
    ensures
        results.0 is Ok <==> root.identity.device == device && root.uid == 0 && root.mode & 0o022
            == 0,
        results.1 is Ok <==> work.uid == 0 && work.identity.device == root.identity.device
            && work.mode & 0o077 == 0,
        results.2 is Ok <==> work.uid == uid && work.gid == gid && work.identity.device
            == root.identity.device,
        results.3 is Ok <==> lock.kind is File && lock.uid == 0 && lock.mode & 0o077 == 0
            && lock.links == 1,
{
}

/// Law: the helper serves exactly the caller's own unprivileged devices of 128 MiB in blocks of 4096
/// bytes, and only as long as they stay the same.
pub proof fn law_helper_devices(
    owner: u32,
    flags: u64,
    shift: u8,
    sectors: u64,
    uid: u32,
    before: FileIdentity,
    after: FileIdentity,
    results: (Result<(), LabError>, Result<(), LabError>),
)
    requires
        call_ensures(validate_device_parameters, (owner, flags, shift, sectors, uid), results.0),
        call_ensures(check_class_unchanged, (before, after), results.1),
    ensures
        results.0 is Ok <==> owner == uid && flags & 32 != 0 && shift == 12 && sectors as int * 512
            == 128 * 1024 * 1024,
        results.1 is Ok <==> before.device == after.device && before.inode == after.inode,
{
}

/// Law: something counts as unmounted exactly if no mount, wherever it stands in the table, is of
/// the device or at or below the directory, and as mounted exactly if one alone is, which is the
/// device's whole ext4 file system there; its number is then given.
pub proof fn law_mounted_and_unmounted(
    table: &Vec<Mount>,
    device: (u32, u32),
    target: &str,
    unmounted: Result<(), LabError>,
    mounted: Result<u64, LabError>,
)
    requires
        call_ensures(require_unmounted, (table, device, target), unmounted),
        call_ensures(require_mounted, (table, device, target), mounted),
    ensures
        ({
            let found = related(table_view(table@), device, target@);
            &&& unmounted is Ok <==> found.len() == 0
            &&& mounted is Ok <==> found.len() == 1 && found[0].device == device && same_path(
                found[0].target,
                target@,
            ) && same_path(found[0].root, "/"@) && found[0].filesystem == "ext4"@
            &&& mounted matches Ok(id) ==> id == found[0].id
            &&& !(unmounted is Ok && mounted is Ok)
        }),
{
}

/// Law: a command may run until its own limit or the suite's, whichever comes first, and does not
/// start when the suite's is reached.
pub proof fn law_deadlines(now: u64, per_command: u64, suite: u64, result: Result<u64, LabError>)
    requires
        call_ensures(deadline, (now, per_command, suite), result),
    ensures
        result is Ok <==> now < suite,
        result matches Ok(until) ==> until <= suite && until <= now + per_command && (until == suite
            || until == now + per_command),
        result matches Err(error) ==> error.kind is TimedOut,
{
}

/// Law: what the ext4 lab demands of its surroundings: a caller who is not root, a control node that
/// is a character device, and a helper of root's that nobody else may change and that is the one
/// which was built.
pub proof fn law_ext4_surroundings(
    uid: u32,
    control: Observed<NodeFacts>,
    helper: Observed<NodeFacts>,
    same: bool,
    results: (
        Result<(), LabError>,
        Result<(), LabError>,
        Result<(), LabError>,
        Result<(), LabError>,
    ),
)
    requires
        call_ensures(require_normal_user, (uid,), results.0),
        call_ensures(require_control, (control,), results.1),
        call_ensures(require_helper, (helper,), results.2),
        call_ensures(require_same_helper, (same,), results.3),
    ensures
        results.0 is Ok <==> uid != 0,
        results.1 is Ok <==> (control matches Ok(node) && node.kind is CharDevice),
        results.2 is Ok <==> (helper matches Ok(node) && node.kind is File && node.uid == 0
            && node.mode & 0o022 == 0),
        results.3 is Ok <==> same,
{
}

/// Law: the backing of the ext4 lab is accepted exactly if it is the very file that was formatted,
/// still a regular file of the same owner and of exactly 1 GiB, in a directory that validates; a
/// recorded device exactly if it is still the same in its class entry, its node and its number.
pub proof fn law_ext4_identities(
    directory: Result<(), LabError>,
    node: Observed<NodeFacts>,
    owner: u32,
    expected: Option<FileIdentity>,
    device: &Device,
    actual: Result<Device, LabError>,
    results: (Result<(), LabError>, Result<(), LabError>),
)
    requires
        call_ensures(
            crate::lab::ext4::validate_backing,
            (directory, node, owner, expected),
            results.0,
        ),
        call_ensures(Device::validate, (device, actual), results.1),
    ensures
        results.0 is Ok <==> directory is Ok && (node matches Ok(found) && found.kind is File
            && found.len == 1024 * 1024 * 1024 && found.uid == owner && expected == Some(
            found.identity,
        )),
        results.1 is Ok <==> (actual matches Ok(found) && found.class_identity
            == device.class_identity && found.node_identity == device.node_identity && found.number
            == device.number),
{
}

/// Law: a daemon is taken as ready exactly when its device was read, whenever that is; it is waited
/// for exactly while there is time.
pub proof fn law_ext4_start(
    device: Option<Result<Device, LabError>>,
    late: bool,
    expired: bool,
    step: StartStep,
)
    requires
        call_ensures(start_step, (device, late, expired), step),
    ensures
        step is Ready <==> (device matches Some(Ok(_))),
        step is Again <==> !(device matches Some(Ok(_))) && !(device is Some && late) && !expired,
{
}

/// Law: nothing is left alive, nothing is left behind: what the ext4 lab demands before it removes
/// its files, and that a daemon which complained of anything fails the run.
pub proof fn law_ext4_ending(
    daemon: bool,
    device: bool,
    command: bool,
    mounted: bool,
    stderr: &str,
    outcome: &Outcome,
    text: &str,
    entry: NodeFacts,
    directory: NodeFacts,
    results: (
        Result<(), LabError>,
        Result<(), LabError>,
        Result<(), LabError>,
        Result<(), LabError>,
    ),
)
    requires
        call_ensures(require_nothing_alive, (daemon, device, command, mounted), results.0),
        call_ensures(check_daemon_errors, (stderr,), results.1),
        call_ensures(require_clean_stop, (outcome, text), results.2),
        call_ensures(require_own_entry, (entry, directory), results.3),
    ensures
        results.0 is Ok <==> !daemon && !device && !command && !mounted,
        results.1 is Ok <==> find_in(stderr@, "request rejected:"@) is None && find_in(
            stderr@,
            "panicked"@,
        ) is None,
        results.2 is Ok <==> (*outcome matches Outcome::Exit(exit) && exit.code == Some(0i32)),
        results.3 is Ok <==> entry.kind is File && entry.uid == directory.uid
            && entry.identity.device == directory.identity.device,
{
}

/// Law: the commands of the ext4 lab. A check never changes the file system; the helper is run
/// without a prompt, with the number of the device and the name of the directory as they are.
pub proof fn law_ext4_commands(
    number: u8,
    device: &str,
    action: &str,
    id: u32,
    name: &str,
    executable: &str,
    populate: bool,
    commands: (CommandLine, CommandLine, CommandLine, CommandLine),
)
    requires
        call_ensures(
            filesystem_command,
            (crate::lab::ext4::Step::Check(number), device),
            commands.0,
        ),
        call_ensures(filesystem_command, (crate::lab::ext4::Step::Mkfs, device), commands.1),
        call_ensures(helper_command, (action, id, name), commands.2),
        call_ensures(workload_command, (executable, populate), commands.3),
    ensures
        commands.0@.program == "e2fsck"@,
        commands.0@.args == seq!["-f"@, "-n"@, device@],
        commands.1@.program == "mkfs.ext4"@,
        commands.1@.args == seq![device@],
        commands.2@.program == "sudo"@,
        commands.2@.args == seq![
            "-n"@,
            "--"@,
            "/usr/local/libexec/block-storage-mount"@,
            action@,
            decimal(id as int),
            name@,
        ],
        commands.3@.program == executable@,
        commands.3@.args == seq![
            if populate {
                "ext4-populate"@
            } else {
                "ext4-verify"@
            },
        ],
{
}

/// Law: a killed daemon must have died of exactly that signal, a second daemon must have been
/// refused the backing in exactly those words, and a program counts as successful exactly by its
/// exit code.
pub proof fn law_ublk_outcomes(
    outcome: Outcome,
    exit: &Exit,
    silent: bool,
    stderr: &str,
    label: &str,
    results: (Result<(), LabError>, Result<(), LabError>, Result<(), LabError>),
)
    requires
        call_ensures(require_killed, (outcome,), results.0),
        call_ensures(require_lock_failure, (exit, silent, stderr), results.1),
        call_ensures(require_success, (label, exit), results.2),
    ensures
        results.0 is Ok <==> (outcome matches Outcome::Exit(found) && found.signal == Some(9i32)),
        results.1 is Ok <==> exit.code == Some(1i32) && silent && stderr@
            == "block-storage-ublk: backing file is already locked\n"@,
        results.2 is Ok <==> exit.code == Some(0i32),
{
}

/// Law: the commands of the ublk lab: exactly the recorded device is deleted, and a daemon leaves
/// the choice of the device to the driver.
pub proof fn law_ublk_commands(
    daemon: &str,
    backing: &str,
    id: u32,
    commands: (CommandLine, CommandLine),
)
    requires
        call_ensures(delete_command, (daemon, id), commands.0),
        call_ensures(serve_command, (daemon, backing), commands.1),
    ensures
        commands.0@.program == daemon@,
        commands.0@.args == seq!["delete"@, decimal(id as int)],
        commands.1@.program == daemon@,
        commands.1@.args == seq!["serve"@, backing@, "-1"@],
{
}

/// Law: what is waited for in time is waited for exactly while it has not happened and there is
/// time, fails exactly at an error or when the time is up, and is done exactly when it has happened.
pub proof fn law_waits_end_in_time(
    id: u32,
    absent: Observed<bool>,
    path: &str,
    present: Observed<bool>,
    expired: bool,
    steps: (PollStep, PollStep),
)
    requires
        call_ensures(wait_for_disappearance, (id, absent, expired), steps.0),
        call_ensures(after_stop, (path, present, expired), steps.1),
    ensures
        steps.0 is Done <==> (absent matches Ok(true)),
        steps.0 is Again <==> (absent matches Ok(false)) && !expired,
        steps.1 is Done <==> (present matches Ok(false)),
        steps.1 is Again <==> (present matches Ok(true)) && !expired,
{
}

/// Law: what is left of a killed daemon's device is deleted only if it is the recorded one: at once
/// when it has stopped, and otherwise only when the time to stop is up. One that has changed is
/// never deleted, and one that cannot be told is waited for and then left alone.
pub proof fn law_after_a_kill(
    state: Observed<DeviceIdentityState>,
    expired: bool,
    step: AfterKillStep,
)
    requires
        call_ensures(wait_for_remove_after_kill_identity, (state, expired), step),
    ensures
        step == AfterKillStep::Settled(RemoveAfterKillIdentity::Absent) <==> (state matches Ok(
            DeviceIdentityState::Absent,
        )),
        step == AfterKillStep::Settled(RemoveAfterKillIdentity::Deletable) <==> (state matches Ok(
            DeviceIdentityState::StoppedMatching,
        )) || ((state matches Ok(DeviceIdentityState::Matching)) && expired),
        step is Refuse <==> (state matches Ok(DeviceIdentityState::IdentityChanged)) || (state is Err
            && expired),
{
}

/// Law: how the answers of the system are read: a group that is gone is no failure to signal, one
/// that may not be signalled is there, and reaping goes on exactly while something was reaped or the
/// call was interrupted.
pub proof fn law_system_answers(
    result: i32,
    number: i32,
    error: LabError,
    group: u32,
    expired: bool,
    signalled: Result<(), LabError>,
    exists_there: Result<bool, LabError>,
    ready: ReapStep,
    all: ReapStep,
)
    requires
        call_ensures(signal_result, (result, number, error), signalled),
        call_ensures(existence_result, (result, number, error), exists_there),
        call_ensures(reap_available_step, (result, number, error), ready),
        call_ensures(reap_step, (group, result, number, error, expired), all),
    ensures
        signalled is Ok <==> result == 0 || number == 3,
        (exists_there matches Ok(true)) <==> result == 0 || number == 1,
        (exists_there matches Ok(false)) <==> result != 0 && number == 3,
        ready is Again <==> result > 0 || (result < 0 && number == 4),
        ready is Done <==> result == 0 || (result < 0 && number == 10),
        all is Again <==> result > 0 || (result < 0 && number == 4),
        all is Done <==> result < 0 && number == 10,
        all is Pause <==> result == 0 && !expired,
{
}

/// Law: a program is waited for exactly while it has not ended and there is time; that it has ended
/// counts even when the time is up.
pub proof fn law_programs_are_waited_for(
    polled: Observed<Option<Exit>>,
    expired: bool,
    step: WaitStep,
)
    requires
        call_ensures(after_poll, (polled, expired), step),
    ensures
        polled matches Ok(Some(exit)) ==> step == WaitStep::Done(Outcome::Exit(exit)),
        step is Again <==> (polled matches Ok(None)) && !expired,
        step is Fail <==> polled is Err,
{
}

/// Law: a directory is tried under up to a hundred names, and another one only where the name was
/// taken; a work directory that was there already is looked at.
pub proof fn law_directories_are_tried(
    attempts: u32,
    created: Observed<()>,
    step: CreateStep,
    work: WorkStep,
)
    requires
        call_ensures(after_creating, (attempts, created), step),
        call_ensures(after_creating_work_directory, (created,), work),
    ensures
        step is Initialize <==> created is Ok,
        step is Again <==> (created matches Err(error) && error.kind is AlreadyExists) && attempts
            < 100,
        work is HandOver <==> created is Ok,
        work is Inspect <==> (created matches Err(error) && error.kind is AlreadyExists),
{
}

/// Law: the volume of the ublk lab has 64 blocks and a backing with room for exactly 32 records
/// behind its maps, and a scenario succeeds in exactly as many writes as it tries, up to these.
pub proof fn law_ublk_geometry(geometry: Geometry, scenario: Scenario, counts: (u64, u64))
    requires
        call_ensures(Geometry::expected, (), geometry),
        call_ensures(Scenario::attempted_writes, (scenario,), counts.0),
        call_ensures(Scenario::successful_writes, (scenario,), counts.1),
    ensures
        geometry.block_bytes == 4096,
        geometry.volume_blocks == 64,
        geometry.record_capacity == 32,
        geometry.log_start_blocks == crate::layout::layout_of(64).log_start,
        geometry.backing_blocks == geometry.log_start_blocks + 2 * geometry.record_capacity,
        counts.0 == (if scenario is Sequential || scenario is Random {
            16u64
        } else if scenario is Exhaustion {
            33u64
        } else {
            8u64
        }),
        counts.1 == (if counts.0 <= 32 {
            counts.0
        } else {
            32u64
        }),
{
}

/// Law: the jobs that a scenario hands out are its jobs, and each is run by the command that says
/// what it does.
pub proof fn law_handed_out_jobs(scenario: Scenario, jobs: Vec<FioJob>, index: int)
    requires
        call_ensures(Scenario::fio_jobs, (scenario,), jobs),
        0 <= index < jobs@.len(),
    ensures
        jobs@.len() == scenario.jobs().len(),
        jobs@[index].name@ == scenario.jobs()[index].name,
        jobs@[index].pattern == scenario.jobs()[index].pattern,
        jobs@[index].blocks == scenario.jobs()[index].blocks,
        jobs@[index].options == scenario.jobs()[index].options,
        scenario.course().contains(crate::lab::scenario::Transition::Restart) && index == 1
            ==> jobs@[index].options.verify_only,
{
    let views = crate::lab::scenario::job_views(jobs@);
    assert(views[index] == jobs@[index]@);
    if scenario.course().contains(crate::lab::scenario::Transition::Restart) && index == 1 {
        assert(scenario.jobs()[1].options.verify_only);
    }
}

/// Law: a test is run alone and under its exact name, in the group in which it was listed.
pub proof fn law_tests_are_run_exactly(
    mode: Mode,
    group: usize,
    test: &str,
    commands: (CommandLine, CommandLine),
)
    requires
        group < 5,
        call_ensures(list_command, (mode, group), commands.0),
        call_ensures(test_command, (mode, group, test), commands.1),
    ensures
        commands.0@.program == "cargo"@ && commands.1@.program == "cargo"@,
        commands.0@.args.last() == "--list"@,
        commands.1@.args.last() == "--exact"@,
        commands.1@.args[3] == test@,
        commands.0@.args[2] == commands.1@.args[2],
        commands.0@.args[2] == crate::lab::suite::group_target(group as int),
        commands.0@.env == commands.1@.env,
        commands.0@.env.len() > 0 <==> mode is EngineCrash,
{
}

/// Law: a file is verified exactly if it is a regular file of the expected size with exactly the
/// expected content, to the last byte.
pub proof fn law_file_verification(
    path: &str,
    facts: FileFacts,
    expected: &Vec<u8>,
    result: Result<(), LabError>,
)
    requires
        call_ensures(verify_file, (path, facts, expected), result),
    ensures
        result is Ok <==> {
            &&& facts.node matches Ok(node) && node.kind is File && node.len == expected@.len()
            &&& facts.content matches Ok(content) && content@ == expected@
        },
{
    law_files_are_compared_whole(path@, facts, expected@, 0);
}

/// Law: the workload is verified only if both files hold, to the last byte, what the populating
/// operations have written.
pub proof fn law_workload_verification(
    facts: WorkloadFacts,
    deleted: Seq<u8>,
    result: Result<(), LabError>,
)
    requires
        call_ensures(verify, (facts,), result),
        result is Ok,
    ensures
        ({
            let ops = population(deleted);
            let files = Tree::empty().after_all(ops, ops.len() as int).files;
            &&& facts.stable.content matches Ok(content) && content@ == files["a/stable"@]
            &&& facts.renamed.content matches Ok(content) && content@ == files["b/renamed"@]
        }),
{
    law_verified_workload_is_the_populated_tree(facts, deleted);
}

/// Law: a test that passed is followed by the next one of its group as long as there is one, and
/// one that did not pass ends the run in failure.
pub proof fn law_tests_follow_one_another(
    outcome: TestOutcome,
    elapsed: Span,
    expired: bool,
    step: SuiteStep,
)
    ensures
        forall|run: &mut SuiteRun|
            (#[trigger] call_ensures(SuiteRun::finished, (run, outcome, elapsed, expired), step)
                && run@.wf() && run.next < run.tests@.len()) ==> {
                let more = run.next + 1 < run.tests@.len();
                &&& outcome is Passed && more ==> step.action == SuiteAction::CheckClock
                    && final(run)@.group == run@.group && final(run)@.next == run@.next + 1
                    && final(run)@.tests == run@.tests
                &&& outcome is Passed && !more && run.group < 4 ==> step.action
                    == SuiteAction::List && final(run)@.group == run@.group + 1
                &&& outcome is Passed && !more && run.group == 4 ==> step.action
                    == SuiteAction::Finish(true)
                &&& !(outcome is Passed) ==> step.action == SuiteAction::Finish(false)
            },
{
}

/// Law: the steps that a repetition hands out frame those of its scenario: it begins by announcing
/// and setting up, and ends by stopping, validating, removing and recording the pass; and the parts
/// that a step hands out are all that it consists of.
pub proof fn law_handed_out_steps(
    scenario: Scenario,
    prove_lock: bool,
    steps: Vec<LabStep>,
    step: LabStep,
    found: Vec<Part>,
)
    requires
        call_ensures(execute, (scenario, prove_lock), steps),
        call_ensures(parts, (step,), found),
    ensures
        ({
            let inner = scenario_steps(scenario);
            let end = steps@.len() - 1;
            &&& steps@.len() == inner.len() + (if prove_lock {
                7int
            } else {
                6
            })
            &&& steps@[0] is Announce && steps@[1] is Setup
            &&& steps@.subrange(2, (2 + inner.len()) as int) == inner
            &&& prove_lock ==> steps@[(2 + inner.len()) as int] is ProveLock
            &&& steps@[end - 3] is Stop && steps@[end - 2] is ValidateBacking
            &&& steps@[end - 1] is RemoveDirectory && steps@[end] is Pass
            &&& found@ == part_list(step)
        }),
{
    let inner = scenario_steps(scenario);
    assert(steps@.subrange(2, (2 + inner.len()) as int) =~= inner);
}

/// Law: what the ext4 lab demands of its mount and of what was printed: the mount directory and a
/// recorded mount must be the very ones, a setting must be what it must be apart from white space, a
/// workload must have printed exactly what is expected, and up to 16 MiB of output are kept.
pub proof fn law_ext4_comparisons(
    node: NodeFacts,
    expected: Option<FileIdentity>,
    mount: u64,
    recorded: Option<u64>,
    index: usize,
    shown: &str,
    printed: &str,
    length: u64,
    results: (
        Result<(), LabError>,
        Result<(), LabError>,
        Result<(), LabError>,
        Result<(), LabError>,
        Result<(), LabError>,
        Result<(), LabError>,
    ),
)
    requires
        index < 3,
        call_ensures(require_mount_directory, (node, expected), results.0),
        call_ensures(require_unchanged_mount_directory, (node.identity, expected), results.1),
        call_ensures(require_mount_id, (mount, recorded), results.2),
        call_ensures(require_field, (index, shown), results.3),
        call_ensures(require_manifest, (printed,), results.4),
        call_ensures(require_capture, (length,), results.5),
    ensures
        results.0 is Ok <==> node.kind is Directory && expected == Some(node.identity),
        results.1 is Ok <==> expected == Some(node.identity),
        results.2 is Ok <==> (recorded matches Some(id) ==> id == mount),
        results.3 is Ok <==> trimmed(shown@) == (if index == 2 {
            "4"@
        } else {
            "4096"@
        }),
        results.4 is Ok <==> printed@ == manifest_text(),
        results.5 is Ok <==> length <= 16 * 1024 * 1024,
{
}

/// Law: a daemon has reached its failpoint exactly if it has printed that line, even if it has ended
/// since; otherwise it is waited for exactly while it runs and there is time.
pub proof fn law_failpoints_are_awaited(
    text: &str,
    expected: &str,
    ended: Observed<bool>,
    expired: bool,
    step: PollStep,
)
    requires
        call_ensures(wait_for_handshake, (text, expected, ended, expired), step),
    ensures
        step is Done <==> has_line(text@, expected@),
        step is Again <==> !has_line(text@, expected@) && (ended matches Ok(false)) && !expired,
{
}

/// Law: fio judges a command by all of its arguments, and only fio's own commands; and a fixture is
/// mounted in its own directory.
pub proof fn law_judged_commands(
    command: &CommandLine,
    name: &str,
    judged: Result<CommandLine, LabError>,
    path: String,
)
    requires
        call_ensures(validate_fio_command, (command,), judged),
        call_ensures(fixture_path, (name,), path),
    ensures
        judged is Ok <==> command@.program == "fio"@,
        judged matches Ok(found) ==> found@.program == "fio"@ && found@.args.len()
            == command@.args.len() + 2 && found@.args.skip(2) == command@.args && found@.args[0]
            == "--parse-only"@,
        path@ == "/tmp/"@ + name@ + "/mount"@,
{
    if let Ok(found) = judged {
        assert(found@.args.skip(2) =~= command@.args);
    }
}

} // verus!
