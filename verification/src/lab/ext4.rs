//! The ext4 lab: a file system on the device, checked unmounted, across a clean restart.

use crate::lab::command::CommandLine;
#[allow(unused_imports)]
use crate::lab::command::CommandView;
use crate::lab::device::PollStep;
use crate::lab::error::{demand, failure, failure_text, LabError, LabErrorKind};
#[allow(unused_imports)]
use crate::lab::error::demanded;
use crate::lab::node::{FileIdentity, NodeFacts, NodeKind, Observed};
use crate::lab::process::Outcome;
use crate::lab::ublk::DevicePath;
use crate::lab::workload::manifest;
#[allow(unused_imports)]
use crate::lab::workload::manifest_text;
use crate::mounts::{Mount, BACKING_BYTES, MOUNT_HELPER, VOLUME_BYTES};
use crate::paths::starts_with;
#[allow(unused_imports)]
use crate::paths::lies_under;
use crate::text::{
    chars_of, contains, decimal_text, lines, push_decimal, push_decimal3, spells, string_of,
    strip_suffix, trim,
};
#[allow(unused_imports)]
use crate::text::{
    decimal, decimal3, digits_value, find_in, has_suffix, is_digit,
    law_base_digits_denote_their_number, law_canonical_is_decimal, law_decimal_denotes_its_number,
    power, lemma_position, lemma_position_behind, lines_of, position,
    split_on, trimmed, views,
};
use vstd::prelude::*;

verus! {

/// How often the whole is repeated, each time with a new image.
pub const REPETITIONS: usize = 3;

/// How much of what a program prints is kept in the record.
pub const MAX_CAPTURE_BYTES: u64 = 16_777_216;

/// Seconds for cleaning up after a failure.
pub const RECOVERY_SECONDS: u64 = 60;

/// One step of the lab.
#[derive(Clone, Copy, Debug, PartialEq, Eq, Structural)]
pub enum Step {
    Format,
    Start,
    Mkfs,
    /// A check of the file system, numbered.
    Check(u8),
    Mount,
    Populate,
    Verify,
    Unmount,
    Stop,
}

/// The steps of the lab, in order.
pub open spec fn step_list() -> Seq<Step> {
    seq![
        Step::Format,
        Step::Start,
        Step::Mkfs,
        Step::Check(1),
        Step::Mount,
        Step::Populate,
        Step::Verify,
        Step::Unmount,
        Step::Check(2),
        Step::Stop,
        Step::Start,
        Step::Check(3),
        Step::Mount,
        Step::Verify,
        Step::Unmount,
        Step::Check(4),
        Step::Stop,
    ]
}

/// The steps of the lab, in order.
pub fn steps() -> (steps: [Step; 17])
    ensures
        steps@ == step_list(),
{
    let steps = [
        Step::Format,
        Step::Start,
        Step::Mkfs,
        Step::Check(1),
        Step::Mount,
        Step::Populate,
        Step::Verify,
        Step::Unmount,
        Step::Check(2),
        Step::Stop,
        Step::Start,
        Step::Check(3),
        Step::Mount,
        Step::Verify,
        Step::Unmount,
        Step::Check(4),
        Step::Stop,
    ];
    assert(steps@ =~= step_list());
    steps
}

impl Step {
    /// How a step is named in the record.
    pub open spec fn text(self) -> Seq<char> {
        match self {
            Step::Format => "Format"@,
            Step::Start => "Start"@,
            Step::Mkfs => "Mkfs"@,
            Step::Check(number) => "Check("@ + decimal(number as int) + ")"@,
            Step::Mount => "Mount"@,
            Step::Populate => "Populate"@,
            Step::Verify => "Verify"@,
            Step::Unmount => "Unmount"@,
            Step::Stop => "Stop"@,
        }
    }

    /// How a step is named in the record.
    pub fn name(self) -> (name: String)
        ensures
            name@ == self.text(),
    {
        match self {
            Step::Format => String::from_str("Format"),
            Step::Start => String::from_str("Start"),
            Step::Mkfs => String::from_str("Mkfs"),
            Step::Check(number) => {
                let mut name = String::from_str("Check(");
                push_decimal(&mut name, number as u64);
                name.append(")");
                name
            },
            Step::Mount => String::from_str("Mount"),
            Step::Populate => String::from_str("Populate"),
            Step::Verify => String::from_str("Verify"),
            Step::Unmount => String::from_str("Unmount"),
            Step::Stop => String::from_str("Stop"),
        }
    }
}

/// Whether a daemon runs and whether the file system is mounted.
pub ghost struct Standing {
    pub formatted: bool,
    pub started: bool,
    pub mounted: bool,
    /// How many checks were made.
    pub checks: int,
}

impl Standing {
    /// Whether a step is in order.
    pub open spec fn permits(self, step: Step) -> bool {
        match step {
            Step::Format => !self.formatted && !self.started && !self.mounted,
            Step::Start => self.formatted && !self.started && !self.mounted,
            Step::Mkfs => self.started && !self.mounted,
            Step::Check(number) => self.started && !self.mounted && number == self.checks + 1,
            Step::Mount => self.started && !self.mounted,
            Step::Populate | Step::Verify => self.mounted,
            Step::Unmount => self.started && self.mounted,
            Step::Stop => self.started && !self.mounted,
        }
    }

    /// How things stand after a step.
    pub open spec fn after(self, step: Step) -> Standing {
        match step {
            Step::Format => Standing { formatted: true, ..self },
            Step::Start => Standing { started: true, ..self },
            Step::Check(_) => Standing { checks: self.checks + 1, ..self },
            Step::Mount => Standing { mounted: true, ..self },
            Step::Unmount => Standing { mounted: false, ..self },
            Step::Stop => Standing { started: false, ..self },
            _ => self,
        }
    }
}

/// How things stand after the steps from `at` on, if each is in order in its turn.
pub open spec fn standing_after(at: int, standing: Standing) -> Option<Standing>
    decreases 17 - at,
{
    if at < 0 || at >= 17 {
        Some(standing)
    } else if !standing.permits(step_list()[at]) {
        None
    } else {
        standing_after(at + 1, standing.after(step_list()[at]))
    }
}

/// Law: the steps are in order: the file system is checked four times, each time unmounted with
/// the daemon running, and in the end nothing is mounted and no daemon runs.
pub proof fn law_steps_are_in_order()
    ensures
        standing_after(
            0,
            (Standing { formatted: false, started: false, mounted: false, checks: 0 }),
        ) == Some((Standing { formatted: true, started: false, mounted: false, checks: 4 })),
{
    reveal_with_fuel(standing_after, 18);
}

/// Law: which step stands where. The image is formatted, the file system made and the files written
/// once each; the files are read back in the same mount and, after the file system was unmounted,
/// checked, and the daemon stopped and started again, once more in a new mount. The file system is
/// checked before each mount and after each unmount, numbered through.
pub proof fn law_files_are_read_back_across_a_restart(index: int)
    requires
        0 <= index < step_list().len(),
    ensures
        ({
            let steps = step_list();
            let step = steps[index];
            &&& steps.len() == 17
            &&& step is Format <==> index == 0
            &&& step is Start <==> index == 1 || index == 10
            &&& step is Mkfs <==> index == 2
            &&& step is Mount <==> index == 4 || index == 12
            &&& step is Populate <==> index == 5
            &&& step is Verify <==> index == 6 || index == 13
            &&& step is Unmount <==> index == 7 || index == 14
            &&& step is Stop <==> index == 9 || index == 16
            &&& step matches Step::Check(number) ==> {
                ||| index == 3 && number == 1
                ||| index == 8 && number == 2
                ||| index == 11 && number == 3
                ||| index == 15 && number == 4
            }
        }),
{
}

/// Until when a command may run: its own limit or the suite's, whichever comes first. All times
/// are counted from one moment.
pub fn deadline(now: u64, per_command: u64, suite_deadline: u64) -> (result: Result<u64, LabError>)
    ensures
        match result {
            Ok(until) => {
                &&& now < suite_deadline
                &&& until == if now + per_command <= suite_deadline {
                    now + per_command
                } else {
                    suite_deadline as int
                }
            },
            Err(error) => now >= suite_deadline && error@ == (
                LabErrorKind::TimedOut,
                "ext4 suite deadline exceeded"@,
            ),
        },
{
    if now >= suite_deadline {
        return Err(failure(LabErrorKind::TimedOut, "ext4 suite deadline exceeded"));
    }
    if per_command <= suite_deadline - now {
        Ok(now + per_command)
    } else {
        Ok(suite_deadline)
    }
}

/// The name of a file that catches what a command prints.
pub open spec fn capture_name(sequence: int, label: Seq<char>, stream: Seq<char>) -> Seq<char> {
    decimal3(sequence) + "-"@ + label + stream
}

/// Names the files that catch what the next command prints.
pub fn outputs(sequence: &mut usize, label: &str) -> (names: (String, String))
    requires
        *old(sequence) < usize::MAX,
    ensures
        *final(sequence) == *old(sequence) + 1,
        names.0@ == capture_name(*old(sequence) + 1, label@, ".stdout"@),
        names.1@ == capture_name(*old(sequence) + 1, label@, ".stderr"@),
{
    *sequence = *sequence + 1;
    let mut out = String::new();
    push_decimal3(&mut out, *sequence as u64);
    out.append("-");
    out.append(label);
    let mut err = String::from_str(out.as_str());
    out.append(".stdout");
    err.append(".stderr");
    assert(out@ =~= capture_name(*sequence as int, label@, ".stdout"@));
    assert(err@ =~= capture_name(*sequence as int, label@, ".stderr"@));
    (out, err)
}

/// Demands that what a program printed fits the record.
pub fn require_capture(length: u64) -> (result: Result<(), LabError>)
    ensures
        demanded(
            length <= MAX_CAPTURE_BYTES,
            "command output exceeds capture limit; full file preserved"@,
            result,
        ),
{
    demand(
        length <= MAX_CAPTURE_BYTES,
        "command output exceeds capture limit; full file preserved",
    )
}

/// How the record keeps what a program printed.
pub fn capture_text(label: &str, path: &str, text: &str) -> (kept: String)
    ensures
        kept@ == "--- "@ + label@ + ": "@ + path@ + " ---\n"@ + text@ + "\n--- end "@ + label@
            + " ---"@,
{
    let mut kept = String::from_str("--- ");
    kept.append(label);
    kept.append(": ");
    kept.append(path);
    kept.append(" ---\n");
    kept.append(text);
    kept.append("\n--- end ");
    kept.append(label);
    kept.append(" ---");
    kept
}

/// Demands that no command is running.
pub fn require_no_command(running: bool) -> (result: Result<(), LabError>)
    ensures
        demanded(!running, "previous command group has not been reaped"@, result),
{
    demand(!running, "previous command group has not been reaped")
}

/// Why a command counts as failed, if it does.
pub open spec fn command_refusal(
    label: Seq<char>,
    outcome: Observed<Outcome>,
    cleanup: Result<(), LabError>,
    in_time: bool,
) -> Option<(LabErrorKind, Seq<char>)> {
    match cleanup {
        Err(error) => Some(error@),
        Ok(()) => match outcome {
            Err(error) => Some(error@),
            Ok(Outcome::Exit(exit)) => if !exit.succeeded() {
                Some((LabErrorKind::Other, label + " failed: "@ + exit.text@))
            } else if !in_time {
                Some(
                    (LabErrorKind::TimedOut, label + " exceeded command or suite deadline"@),
                )
            } else {
                None
            },
            Ok(Outcome::Timeout) => Some(
                (LabErrorKind::TimedOut, label + " exceeded command or suite deadline"@),
            ),
        },
    }
}

/// Hands out what a command printed if it succeeded in time and was cleaned up.
pub fn command_result(
    label: &str,
    outcome: Observed<Outcome>,
    cleanup: Result<(), LabError>,
    in_time: bool,
    output: String,
) -> (result: Result<String, LabError>)
    ensures
        match result {
            Ok(text) => command_refusal(label@, outcome, cleanup, in_time) is None && text@
                == output@,
            Err(error) => command_refusal(label@, outcome, cleanup, in_time) == Some(error@),
        },
{
    match cleanup {
        Err(error) => {
            return Err(error);
        },
        Ok(()) => {},
    }
    match outcome {
        Err(error) => {
            return Err(error);
        },
        Ok(Outcome::Exit(exit)) => {
            if !exit.success() {
                let mut message = String::from_str(label);
                message.append(" failed: ");
                message.append(exit.text.as_str());
                return Err(failure_text(LabErrorKind::Other, message));
            }
            if in_time {
                return Ok(output);
            }
        },
        Ok(Outcome::Timeout) => {},
    }
    let mut message = String::from_str(label);
    message.append(" exceeded command or suite deadline");
    Err(failure_text(LabErrorKind::TimedOut, message))
}

/// Law: a command succeeds exactly if its group was cleaned up, it ended with exit code zero, and
/// it did so in time; a cleanup that failed is told before anything else, and a command that did
/// not end in time has a timeout as its error.
pub proof fn law_commands_succeed_only_in_time(
    label: Seq<char>,
    outcome: Observed<Outcome>,
    cleanup: Result<(), LabError>,
    in_time: bool,
)
    ensures
        command_refusal(label, outcome, cleanup, in_time) is None <==> {
            &&& cleanup is Ok
            &&& in_time
            &&& outcome matches Ok(Outcome::Exit(exit)) && exit.code == Some(0i32)
        },
        cleanup matches Err(error) ==> command_refusal(label, outcome, cleanup, in_time) == Some(
            error@,
        ),
        cleanup is Ok && (outcome matches Ok(Outcome::Timeout)) ==> (command_refusal(
            label,
            outcome,
            cleanup,
            in_time,
        ) matches Some((kind, _)) && kind is TimedOut),
{
}

/// One step of the preflight.
#[derive(Clone, Copy, Debug, PartialEq, Eq, Structural)]
pub enum PreflightStep {
    /// See [`require_normal_user`].
    NormalUser,
    Commit,
    Worktree,
    Kernel,
    /// See [`require_binary`]; the lab's own executable.
    LabBinary,
    /// See [`require_binary`]; the daemon's executable.
    DaemonBinary,
    MkfsVersion,
    CheckVersion,
    /// See [`validate_runtime_directory`].
    RuntimeDirectory,
    /// See [`require_control`].
    Control,
    /// Open the control node.
    OpenControl,
    /// See [`require_helper`].
    Helper,
    /// See [`require_same_helper`].
    HelperBuild,
    HelperPreflight,
    /// Record the expected manifest.
    Manifest,
}

/// The steps of the preflight, in order.
pub const PREFLIGHT: [PreflightStep; 15] = [
    PreflightStep::NormalUser,
    PreflightStep::Commit,
    PreflightStep::Worktree,
    PreflightStep::Kernel,
    PreflightStep::LabBinary,
    PreflightStep::DaemonBinary,
    PreflightStep::MkfsVersion,
    PreflightStep::CheckVersion,
    PreflightStep::RuntimeDirectory,
    PreflightStep::Control,
    PreflightStep::OpenControl,
    PreflightStep::Helper,
    PreflightStep::HelperBuild,
    PreflightStep::HelperPreflight,
    PreflightStep::Manifest,
];

/// Law: the preflight looks at everything once, at the caller first, and records what is expected
/// only when all else was found in order.
pub proof fn law_preflight_is_complete(step: PreflightStep, index: int, other: int)
    ensures
        exists|i: int| 0 <= i < 15 && #[trigger] PREFLIGHT@[i] == step,
        PREFLIGHT@.len() == 15,
        0 <= index < other < 15 ==> PREFLIGHT@[index] != PREFLIGHT@[other],
        PREFLIGHT@[0] is NormalUser,
        PREFLIGHT@[14] is Manifest,
{
    assert(PREFLIGHT@[0] == PreflightStep::NormalUser && PREFLIGHT@[1] == PreflightStep::Commit
        && PREFLIGHT@[2] == PreflightStep::Worktree && PREFLIGHT@[3] == PreflightStep::Kernel);
    assert(PREFLIGHT@[4] == PreflightStep::LabBinary && PREFLIGHT@[5] == PreflightStep::DaemonBinary
        && PREFLIGHT@[6] == PreflightStep::MkfsVersion && PREFLIGHT@[7]
        == PreflightStep::CheckVersion);
    assert(PREFLIGHT@[8] == PreflightStep::RuntimeDirectory && PREFLIGHT@[9]
        == PreflightStep::Control && PREFLIGHT@[10] == PreflightStep::OpenControl && PREFLIGHT@[11]
        == PreflightStep::Helper);
    assert(PREFLIGHT@[12] == PreflightStep::HelperBuild && PREFLIGHT@[13]
        == PreflightStep::HelperPreflight && PREFLIGHT@[14] == PreflightStep::Manifest);
}

/// The label and the command of a step of the preflight that runs one.
pub open spec fn preflight_command_of(step: PreflightStep) -> Option<(Seq<char>, CommandView)> {
    match step {
        PreflightStep::Commit => Some(
            ("commit"@, CommandView::of("git"@, seq!["rev-parse"@, "HEAD"@])),
        ),
        PreflightStep::Worktree => Some(
            ("worktree"@, CommandView::of("git"@, seq!["status"@, "--short"@])),
        ),
        PreflightStep::Kernel => Some(("kernel"@, CommandView::of("uname"@, seq!["-srvm"@]))),
        PreflightStep::MkfsVersion => Some(
            ("mkfs-version"@, CommandView::of("mkfs.ext4"@, seq!["-V"@])),
        ),
        PreflightStep::CheckVersion => Some(
            ("e2fsck-version"@, CommandView::of("e2fsck"@, seq!["-V"@])),
        ),
        PreflightStep::HelperPreflight => Some(
            (
                "helper-preflight"@,
                CommandView::of("sudo"@, seq!["-n"@, "--"@, MOUNT_HELPER@, "check"@]),
            ),
        ),
        _ => None,
    }
}

/// Law: exactly the steps that ask other programs run a command, and each runs its own; the helper
/// is only asked to check, through sudo without a prompt.
pub proof fn law_preflight_commands(step: PreflightStep)
    ensures
        preflight_command_of(step) is Some <==> step is Commit || step is Worktree || step is Kernel
            || step is MkfsVersion || step is CheckVersion || step is HelperPreflight,
        step is HelperPreflight ==> (preflight_command_of(step) matches Some((_, command))
            && command.program == "sudo"@ && command.args == seq![
            "-n"@,
            "--"@,
            MOUNT_HELPER@,
            "check"@,
        ]),
        step is Commit || step is Worktree ==> (preflight_command_of(step) matches Some((_, command))
            && command.program == "git"@),
        step is Kernel ==> (preflight_command_of(step) matches Some((_, command)) && command.program
            == "uname"@),
        step is MkfsVersion ==> (preflight_command_of(step) matches Some((_, command))
            && command.program == "mkfs.ext4"@ && command.args == seq!["-V"@]),
        step is CheckVersion ==> (preflight_command_of(step) matches Some((_, command))
            && command.program == "e2fsck"@ && command.args == seq!["-V"@]),
{
}

/// A labelled command of one or two arguments.
fn labelled_command(label: &'static str, program: &str, first: &str, second: Option<&str>) -> (found:
    Option<(&'static str, CommandLine)>)
    ensures
        found matches Some(pair) && pair.0@ == label@ && pair.1@ == CommandView::of(
            program@,
            match second {
                Some(second) => seq![first@, second@],
                None => seq![first@],
            },
        ),
{
    let mut command = CommandLine::new(program);
    command.arg(first);
    match second {
        Some(second) => {
            command.arg(second);
            assert(command@.args =~= seq![first@, second@]);
        },
        None => {
            assert(command@.args =~= seq![first@]);
        },
    }
    Some((label, command))
}

/// The label and the command of a step of the preflight that runs one.
pub fn preflight_command(step: PreflightStep) -> (found: Option<(&'static str, CommandLine)>)
    ensures
        match found {
            Some(pair) => preflight_command_of(step) == Some((pair.0@, pair.1@)),
            None => preflight_command_of(step) is None,
        },
{
    match step {
        PreflightStep::Commit => labelled_command("commit", "git", "rev-parse", Some("HEAD")),
        PreflightStep::Worktree => labelled_command("worktree", "git", "status", Some("--short")),
        PreflightStep::Kernel => labelled_command("kernel", "uname", "-srvm", None),
        PreflightStep::MkfsVersion => labelled_command("mkfs-version", "mkfs.ext4", "-V", None),
        PreflightStep::CheckVersion => labelled_command("e2fsck-version", "e2fsck", "-V", None),
        PreflightStep::HelperPreflight => {
            let mut command = CommandLine::new("sudo");
            command.arg("-n");
            command.arg("--");
            command.arg(MOUNT_HELPER);
            command.arg("check");
            assert(command@.args =~= seq!["-n"@, "--"@, MOUNT_HELPER@, "check"@]);
            Some(("helper-preflight", command))
        },
        _ => None,
    }
}

/// Demands that the lab does not run as root.
pub fn require_normal_user(effective_uid: u32) -> (result: Result<(), LabError>)
    ensures
        demanded(
            effective_uid != 0,
            "run the ext4 lab as a normal user; only the installed mount helper uses sudo"@,
            result,
        ),
{
    demand(
        effective_uid != 0,
        "run the ext4 lab as a normal user; only the installed mount helper uses sudo",
    )
}

/// Demands that an executable is a regular file that can be run.
pub fn require_binary(node: NodeFacts) -> (result: Result<(), LabError>)
    ensures
        demanded(
            node.kind == NodeKind::File && node.mode & 0o111 != 0,
            "expected a sibling executable regular file"@,
            result,
        ),
{
    demand(
        node.kind == NodeKind::File && node.mode & 0o111 != 0,
        "expected a sibling executable regular file",
    )
}

/// Why the driver's runtime directory cannot be used, if it cannot.
pub open spec fn runtime_refusal(path: Seq<char>, node: Observed<NodeFacts>, uid: u32) -> Option<
    (LabErrorKind, Seq<char>),
> {
    match node {
        Err(error) => Some(
            (
                error.kind,
                "AWAITING OPERATOR VALIDATION: libublk runtime directory "@ + path
                    + " is missing; rerun sudo bash scripts/install-ext4-helper.sh"@,
            ),
        ),
        Ok(facts) => if facts.kind != NodeKind::Directory || facts.uid != uid || facts.mode & 0o777
            != 0o700 {
            Some(
                (
                    LabErrorKind::Other,
                    "libublk runtime directory must be a private caller-owned directory (mode 0700)"@,
                ),
            )
        } else {
            None
        },
    }
}

/// Demands that the driver's runtime directory is the caller's alone.
pub fn validate_runtime_directory(path: &str, node: Observed<NodeFacts>, uid: u32) -> (result:
    Result<(), LabError>)
    ensures
        match result {
            Ok(()) => runtime_refusal(path@, node, uid) is None,
            Err(error) => runtime_refusal(path@, node, uid) == Some(error@),
        },
{
    match node {
        Err(error) => {
            let mut message = String::from_str(
                "AWAITING OPERATOR VALIDATION: libublk runtime directory ",
            );
            message.append(path);
            message.append(" is missing; rerun sudo bash scripts/install-ext4-helper.sh");
            Err(failure_text(error.kind, message))
        },
        Ok(facts) => {
            if facts.kind != NodeKind::Directory || facts.uid != uid || facts.mode & 0o777
                != 0o700 {
                return Err(
                    failure(
                        LabErrorKind::Other,
                        "libublk runtime directory must be a private caller-owned directory (mode 0700)",
                    ),
                );
            }
            Ok(())
        },
    }
}

/// Law: the runtime directory is accepted exactly if it is a directory of the caller's that nobody
/// else may enter.
pub proof fn law_runtime_directory_is_private(
    path: Seq<char>,
    node: Observed<NodeFacts>,
    uid: u32,
)
    ensures
        runtime_refusal(path, node, uid) is None <==> (node matches Ok(facts) && facts.kind
            is Directory && facts.uid == uid && facts.mode & 0o777 == 0o700),
{
}

/// Demands that the control node is there and is a character device.
pub fn require_control(node: Observed<NodeFacts>) -> (result: Result<(), LabError>)
    ensures
        match node {
            Err(cause) => result matches Err(error) && error@ == (
                cause.kind,
                "AWAITING OPERATOR VALIDATION: /dev/ublk-control unavailable; operator must load ublk_drv and grant normal-user device access"@,
            ),
            Ok(facts) => demanded(
                facts.kind == NodeKind::CharDevice,
                "ublk-control is not a character device"@,
                result,
            ),
        },
{
    match node {
        Err(cause) => Err(
            failure(
                cause.kind,
                "AWAITING OPERATOR VALIDATION: /dev/ublk-control unavailable; operator must load ublk_drv and grant normal-user device access",
            ),
        ),
        Ok(facts) => demand(
            facts.kind == NodeKind::CharDevice,
            "ublk-control is not a character device",
        ),
    }
}

/// Demands that the mount helper is installed and only root can change it.
pub fn require_helper(node: Observed<NodeFacts>) -> (result: Result<(), LabError>)
    ensures
        match node {
            Err(cause) => result matches Err(error) && error@ == (
                cause.kind,
                "AWAITING OPERATOR VALIDATION: install the root-owned mount helper and scoped sudo rule"@,
            ),
            Ok(facts) => demanded(
                facts.kind == NodeKind::File && facts.uid == 0 && facts.mode & 0o022 == 0,
                "mount helper must be a root-owned regular file, not writable by group or others"@,
                result,
            ),
        },
{
    match node {
        Err(cause) => Err(
            failure(
                cause.kind,
                "AWAITING OPERATOR VALIDATION: install the root-owned mount helper and scoped sudo rule",
            ),
        ),
        Ok(facts) => demand(
            facts.kind == NodeKind::File && facts.uid == 0 && facts.mode & 0o022 == 0,
            "mount helper must be a root-owned regular file, not writable by group or others",
        ),
    }
}

/// Demands that the installed helper is the one that was built.
pub fn require_same_helper(same: bool) -> (result: Result<(), LabError>)
    ensures
        demanded(
            same,
            "AWAITING OPERATOR VALIDATION: installed helper differs from the current build; operator must review and reinstall it"@,
            result,
        ),
{
    demand(
        same,
        "AWAITING OPERATOR VALIDATION: installed helper differs from the current build; operator must review and reinstall it",
    )
}

/// A device as it was when its daemon became ready.
#[derive(Debug)]
pub struct Device {
    pub path: DevicePath,
    pub class_identity: FileIdentity,
    pub node_identity: FileIdentity,
    pub number: (u32, u32),
}

/// Why a device cannot be used, if it cannot.
pub open spec fn read_refusal(
    class: Observed<FileIdentity>,
    node: Observed<NodeFacts>,
    opened: Observed<FileIdentity>,
) -> Option<(LabErrorKind, Seq<char>)> {
    match class {
        Err(error) => Some(error@),
        Ok(_) => match node {
            Err(error) => Some(error@),
            Ok(facts) => if facts.kind != NodeKind::BlockDevice {
                Some((LabErrorKind::Other, "device path is not a block node"@))
            } else {
                match opened {
                    Err(error) => Some(error@),
                    Ok(identity) => if identity != facts.identity {
                        Some((LabErrorKind::Other, "device node changed while opening it"@))
                    } else {
                        None
                    },
                }
            },
        },
    }
}

/// Law: a device is recorded exactly if its class entry and its node could be read, the node is a
/// block device, and opening it led to that same node.
pub proof fn law_recorded_devices_were_opened(
    class: Observed<FileIdentity>,
    node: Observed<NodeFacts>,
    opened: Observed<FileIdentity>,
)
    ensures
        read_refusal(class, node, opened) is None <==> {
            &&& class is Ok
            &&& node matches Ok(facts) && facts.kind is BlockDevice && (opened matches Ok(identity)
                && identity.device == facts.identity.device && identity.inode
                == facts.identity.inode)
        },
{
}

impl Device {
    /// Records a device: the identity of its class entry, its node, and what opening that led to.
    pub fn read(
        path: DevicePath,
        class: Observed<FileIdentity>,
        node: Observed<NodeFacts>,
        opened: Observed<FileIdentity>,
    ) -> (result: Result<Device, LabError>)
        ensures
            match result {
                Ok(device) => {
                    &&& read_refusal(class, node, opened) is None
                    &&& device.path == path
                    &&& class == Ok::<FileIdentity, LabError>(device.class_identity)
                    &&& node matches Ok(facts)
                    &&& device.node_identity == facts.identity
                    &&& device.number == facts.number
                },
                Err(error) => read_refusal(class, node, opened) == Some(error@),
            },
    {
        let class_identity = match class {
            Ok(identity) => identity,
            Err(error) => {
                return Err(error);
            },
        };
        let facts = match node {
            Ok(facts) => facts,
            Err(error) => {
                return Err(error);
            },
        };
        if facts.kind != NodeKind::BlockDevice {
            return Err(failure(LabErrorKind::Other, "device path is not a block node"));
        }
        match opened {
            Err(error) => Err(error),
            Ok(identity) => {
                if identity != facts.identity {
                    return Err(
                        failure(LabErrorKind::Other, "device node changed while opening it"),
                    );
                }
                Ok(
                    Device {
                        path,
                        class_identity,
                        node_identity: facts.identity,
                        number: facts.number,
                    },
                )
            },
        }
    }

    /// Demands that the device, read again, is still the recorded one.
    pub fn validate(&self, actual: Result<Device, LabError>) -> (result: Result<(), LabError>)
        ensures
            match actual {
                Err(cause) => result matches Err(error) && error@ == cause@,
                Ok(found) => demanded(
                    found.class_identity == self.class_identity && found.node_identity
                        == self.node_identity && found.number == self.number,
                    "recorded ublk identity changed"@,
                    result,
                ),
            },
    {
        match actual {
            Err(error) => Err(error),
            Ok(found) => demand(
                found.class_identity == self.class_identity && found.node_identity
                    == self.node_identity && found.number.0 == self.number.0 && found.number.1
                    == self.number.1,
                "recorded ublk identity changed",
            ),
        }
    }
}

/// Demands that the backing is still the one that was formatted: `directory` is what validating
/// the directory around it came to, `owner` who owns that.
pub fn validate_backing(
    directory: Result<(), LabError>,
    node: Observed<NodeFacts>,
    owner: u32,
    expected: Option<FileIdentity>,
) -> (result: Result<(), LabError>)
    ensures
        match directory {
            Err(cause) => result matches Err(error) && error@ == cause@,
            Ok(()) => match node {
                Err(cause) => result matches Err(error) && error@ == cause@,
                Ok(facts) => demanded(
                    facts.kind == NodeKind::File && facts.len == BACKING_BYTES && facts.uid == owner
                        && expected == Some(facts.identity),
                    "backing identity, owner, type, or size changed"@,
                    result,
                ),
            },
        },
{
    match directory {
        Err(error) => {
            return Err(error);
        },
        Ok(()) => {},
    }
    match node {
        Err(error) => Err(error),
        Ok(facts) => {
            let same = match expected {
                Some(identity) => identity == facts.identity,
                None => false,
            };
            demand(
                facts.kind == NodeKind::File && facts.len == BACKING_BYTES && facts.uid == owner
                    && same,
                "backing identity, owner, type, or size changed",
            )
        },
    }
}

/// Why the device is not in the state in which it may be used, if it is not. `ended` is whether
/// the daemon, if there is one, has ended.
pub open spec fn running_refusal(ended: Option<Observed<bool>>, device: bool) -> Option<
    (LabErrorKind, Seq<char>),
> {
    match ended {
        None => Some((LabErrorKind::Other, "daemon is absent"@)),
        Some(Err(error)) => Some(error@),
        Some(Ok(true)) => Some((LabErrorKind::Other, "daemon exited unexpectedly"@)),
        Some(Ok(false)) => if device {
            None
        } else {
            Some((LabErrorKind::Other, "device identity is missing"@))
        },
    }
}

/// Law: a device may be used exactly while its daemon is known to run and it was recorded.
pub proof fn law_device_is_used_only_while_served(ended: Option<Observed<bool>>, device: bool)
    ensures
        running_refusal(ended, device) is None <==> ended == Some(Ok::<bool, LabError>(false))
            && device,
{
}

/// Demands that the daemon runs and that its device was recorded.
pub fn require_running(ended: Option<Observed<bool>>, device: bool) -> (result: Result<
    (),
    LabError,
>)
    ensures
        match result {
            Ok(()) => running_refusal(ended, device) is None,
            Err(error) => running_refusal(ended, device) == Some(error@),
        },
{
    match ended {
        None => Err(failure(LabErrorKind::Other, "daemon is absent")),
        Some(Err(error)) => Err(error),
        Some(Ok(gone)) => {
            if gone {
                Err(failure(LabErrorKind::Other, "daemon exited unexpectedly"))
            } else if !device {
                Err(failure(LabErrorKind::Other, "device identity is missing"))
            } else {
                Ok(())
            }
        },
    }
}

/// Demands that the mount directory is the one that was made.
pub fn require_mount_directory(node: NodeFacts, expected: Option<FileIdentity>) -> (result: Result<
    (),
    LabError,
>)
    ensures
        demanded(
            node.kind == NodeKind::Directory && expected == Some(node.identity),
            "unmounted mount-directory identity changed"@,
            result,
        ),
{
    let same = match expected {
        Some(identity) => identity == node.identity,
        None => false,
    };
    demand(
        node.kind == NodeKind::Directory && same,
        "unmounted mount-directory identity changed",
    )
}

/// Demands that a mount is the one that was recorded, if one was.
pub fn require_mount_id(id: u64, expected: Option<u64>) -> (result: Result<(), LabError>)
    ensures
        demanded(expected is None || expected == Some(id), "mount identity changed"@, result),
{
    let same = match expected {
        Some(recorded) => recorded == id,
        None => true,
    };
    demand(same, "mount identity changed")
}

/// The command that makes a file system on a device, or checks it without changing it.
pub fn filesystem_command(step: Step, device: &str) -> (command: CommandLine)
    requires
        step is Mkfs || step is Check,
    ensures
        command@ == match step {
            Step::Mkfs => CommandView::of("mkfs.ext4"@, seq![device@]),
            _ => CommandView::of("e2fsck"@, seq!["-f"@, "-n"@, device@]),
        },
{
    match step {
        Step::Mkfs => {
            let mut command = CommandLine::new("mkfs.ext4");
            command.arg(device);
            assert(command@.args =~= seq![device@]);
            command
        },
        _ => {
            let mut command = CommandLine::new("e2fsck");
            command.arg("-f");
            command.arg("-n");
            command.arg(device);
            assert(command@.args =~= seq!["-f"@, "-n"@, device@]);
            command
        },
    }
}

/// The command that formats the backing.
pub fn format_command(daemon: &str, backing: &str) -> (command: CommandLine)
    ensures
        command@ == CommandView::of(
            daemon@,
            seq![
                "format"@,
                backing@,
                decimal(BACKING_BYTES as int),
                decimal(VOLUME_BYTES as int),
            ],
        ),
{
    let mut command = CommandLine::new(daemon);
    command.arg("format");
    command.arg(backing);
    command.arg_text(decimal_text(BACKING_BYTES));
    command.arg_text(decimal_text(VOLUME_BYTES));
    assert(command@.args =~= seq![
        "format"@,
        backing@,
        decimal(BACKING_BYTES as int),
        decimal(VOLUME_BYTES as int),
    ]);
    command
}

/// The command that has the helper mount or unmount a fixture.
pub fn helper_command(action: &str, id: u32, name: &str) -> (command: CommandLine)
    ensures
        command@ == CommandView::of(
            "sudo"@,
            seq!["-n"@, "--"@, MOUNT_HELPER@, action@, decimal(id as int), name@],
        ),
{
    let mut command = CommandLine::new("sudo");
    command.arg("-n");
    command.arg("--");
    command.arg(MOUNT_HELPER);
    command.arg(action);
    command.arg_text(decimal_text(id as u64));
    command.arg(name);
    assert(command@.args =~= seq![
        "-n"@,
        "--"@,
        MOUNT_HELPER@,
        action@,
        decimal(id as int),
        name@,
    ]);
    command
}

/// The command that writes or reads the files of the workload.
pub fn workload_command(executable: &str, populate: bool) -> (command: CommandLine)
    ensures
        command@ == CommandView::of(
            executable@,
            seq![
                if populate {
                    "ext4-populate"@
                } else {
                    "ext4-verify"@
                },
            ],
        ),
{
    let mut command = CommandLine::new(executable);
    if populate {
        command.arg("ext4-populate");
        assert(command@.args =~= seq!["ext4-populate"@]);
    } else {
        command.arg("ext4-verify");
        assert(command@.args =~= seq!["ext4-verify"@]);
    }
    command
}

/// Demands that the workload printed what is expected of it.
pub fn require_manifest(actual: &str) -> (result: Result<(), LabError>)
    ensures
        demanded(
            actual@ == manifest_text(),
            "workload manifest differs from independent expected result"@,
            result,
        ),
{
    let chars = chars_of(actual);
    let expected = manifest();
    demand(
        spells(chars.as_slice(), expected.as_str()),
        "workload manifest differs from independent expected result",
    )
}

/// Demands that no workload is running before the file system is unmounted.
pub fn require_workload_reaped(running: bool) -> (result: Result<(), LabError>)
    ensures
        demanded(!running, "workload children must be reaped before unmount"@, result),
{
    demand(!running, "workload children must be reaped before unmount")
}

/// `text` without the line feeds at its end.
pub open spec fn without_feeds(text: Seq<char>) -> Seq<char>
    decreases text.len(),
{
    if text.len() > 0 && text.last() == '\n' {
        without_feeds(text.drop_last())
    } else {
        text
    }
}

/// Why what a daemon printed does not announce a device, if it does not.
pub open spec fn readiness_refusal(text: Seq<char>) -> Option<(LabErrorKind, Seq<char>)> {
    if !has_suffix(text, "\n"@) || lines_of(text).len() != 1 {
        Some((LabErrorKind::Other, "readiness must be exactly one flushed device path"@))
    } else {
        match DevicePath::refusal(without_feeds(text)) {
            Some(message) => Some((LabErrorKind::Other, message)),
            None => None,
        }
    }
}

/// Reads the device that a daemon announced: one line that is the path of a ublk device.
pub fn readiness_path(text: &str) -> (result: Result<DevicePath, LabError>)
    ensures
        match result {
            Ok(device) => {
                &&& readiness_refusal(text@) is None
                &&& device.text() == without_feeds(text@)
                &&& device.text() == "/dev/ublkb"@ + decimal(device.number() as int)
            },
            Err(error) => readiness_refusal(text@) == Some(error@),
        },
{
    let chars = chars_of(text);
    let all = lines(chars.as_slice());
    assert(views(all@).len() == all@.len());
    if strip_suffix(chars.as_slice(), "\n").is_none() || all.len() != 1 {
        return Err(
            failure(LabErrorKind::Other, "readiness must be exactly one flushed device path"),
        );
    }
    let mut end: usize = chars.len();
    assert(chars@.take(end as int) =~= chars@);
    while end > 0 && chars[end - 1] == '\n'
        invariant
            end <= chars@.len(),
            without_feeds(chars@.take(end as int)) == without_feeds(chars@),
        decreases end,
    {
        assert(chars@.take(end as int).drop_last() =~= chars@.take(end - 1));
        end = end - 1;
    }
    let line = vstd::slice::slice_subrange(chars.as_slice(), 0, end);
    assert(line@ =~= chars@.take(end as int));
    let line = string_of(line);
    match DevicePath::parse(line.as_str()) {
        Ok(device) => Ok(device),
        Err(message) => Err(failure(LabErrorKind::Other, message)),
    }
}

/// A text that has no line feed but the one at its end is one line.
proof fn lemma_one_line(line: Seq<char>)
    requires
        forall|i: int| 0 <= i < line.len() ==> #[trigger] line[i] != '\n',
    ensures
        has_suffix(line + "\n"@, "\n"@),
        lines_of(line + "\n"@).len() == 1,
        without_feeds(line + "\n"@) == line,
{
    reveal_strlit("\n");
    let text = line + "\n"@;
    let none = Seq::<char>::empty();
    assert("\n"@ =~= seq!['\n']);
    assert(text =~= line + seq!['\n'] + none);
    lemma_position_behind(line, '\n', none);
    assert(text.skip(line.len() as int + 1) =~= none);
    assert(split_on(none, '\n') =~= seq![none]);
    assert(split_on(text, '\n') =~= seq![text.take(line.len() as int), none]);
    assert(text.skip(text.len() - 1) =~= "\n"@);
    assert(text.drop_last() =~= line);
    assert(without_feeds(line) == line) by {
        if line.len() > 0 {
            assert(line[line.len() - 1] != '\n');
        }
    }
    assert(without_feeds(text) == without_feeds(text.drop_last()));
}

/// Law: a daemon announces a device exactly if it prints the path of one, `/dev/ublkb` and the
/// number in canonical decimal, and one line feed.
pub proof fn law_readiness_is_one_device_line(text: Seq<char>)
    ensures
        readiness_refusal(text) is None <==> exists|number: u32|
            text == "/dev/ublkb"@ + #[trigger] decimal(number as int) + "\n"@,
{
    reveal_strlit("\n");
    reveal_strlit("/dev/ublkb");
    let head = "/dev/ublkb"@;
    assert("\n"@ =~= seq!['\n']);
    if readiness_refusal(text) is None {
        let at = position(text, '\n');
        let rest = text.skip(at + 1);
        lemma_position(text, '\n');
        assert(text.last() == '\n') by {
            assert(text.skip(text.len() - 1)[0] == "\n"@[0]);
        }
        assert(at < text.len());
        let pieces = split_on(text, '\n');
        assert(pieces == seq![text.take(at)] + split_on(rest, '\n'));
        assert(split_on(rest, '\n').len() >= 1);
        assert(pieces.last() == split_on(rest, '\n').last());
        lemma_position(rest, '\n');
        if position(rest, '\n') < rest.len() {
            let inner = position(rest, '\n');
            assert(split_on(rest, '\n') == seq![rest.take(inner)] + split_on(
                rest.skip(inner + 1),
                '\n',
            ));
            assert(split_on(rest.skip(inner + 1), '\n').len() >= 1);
            assert(pieces.len() >= 3);
            assert(false);
        }
        if rest.len() > 0 {
            assert(rest.last() == text.last());
            assert(rest[rest.len() - 1] != '\n');
        }
        let line = text.take(at);
        assert(text =~= line + "\n"@);
        assert forall|i: int| 0 <= i < line.len() implies #[trigger] line[i] != '\n' by {
            assert(text[i] != '\n');
        }
        lemma_one_line(line);
        let digits = line.skip(head.len() as int);
        law_canonical_is_decimal(digits);
        let number = digits_value(digits) as u32;
        assert(line =~= head + decimal(number as int));
        assert(text =~= head + decimal(number as int) + "\n"@);
    }
    if exists|number: u32| text == head + #[trigger] decimal(number as int) + "\n"@ {
        let number = choose|number: u32|
            text == head + #[trigger] decimal(number as int) + "\n"@;
        let digits = decimal(number as int);
        let line = head + digits;
        law_decimal_denotes_its_number(number as int);
        assert forall|i: int| 0 <= i < line.len() implies #[trigger] line[i] != '\n' by {
            if i >= head.len() {
                assert(is_digit(digits[i - head.len()]));
            }
        }
        lemma_one_line(line);
        assert(line.take(head.len() as int) =~= head);
        assert(line.skip(head.len() as int) =~= digits);
    }
}

/// Demands that neither a daemon nor a device is left of an earlier start.
pub fn require_stopped(daemon: bool, device: bool) -> (result: Result<(), LabError>)
    ensures
        demanded(!daemon && !device, "previous daemon or device remains"@, result),
{
    demand(!daemon && !device, "previous daemon or device remains")
}

/// The device that a starting daemon has announced, or why it will not become ready.
pub open spec fn start_line_of(ended: Observed<bool>, text: Observed<String>) -> Result<
    Option<Seq<char>>,
    (LabErrorKind, Seq<char>),
> {
    match ended {
        Err(error) => Err(error@),
        Ok(true) => Err((LabErrorKind::Other, "daemon exited before readiness"@)),
        Ok(false) => match text {
            Err(error) => Err(error@),
            Ok(text) => if !has_suffix(text@, "\n"@) {
                Ok(None)
            } else {
                match readiness_refusal(text@) {
                    Some(refusal) => Err(refusal),
                    None => Ok(Some(without_feeds(text@))),
                }
            },
        },
    }
}

/// Looks at a starting daemon: whether it has ended, and what it has printed.
pub fn start_line(ended: Observed<bool>, text: Observed<String>) -> (result: Result<
    Option<DevicePath>,
    LabError,
>)
    ensures
        match result {
            Ok(None) => start_line_of(ended, text) == Ok::<
                Option<Seq<char>>,
                (LabErrorKind, Seq<char>),
            >(None),
            Ok(Some(device)) => {
                &&& start_line_of(ended, text) == Ok::<
                    Option<Seq<char>>,
                    (LabErrorKind, Seq<char>),
                >(Some(device.text()))
                &&& device.text() == "/dev/ublkb"@ + decimal(device.number() as int)
            },
            Err(error) => start_line_of(ended, text) == Err::<
                Option<Seq<char>>,
                (LabErrorKind, Seq<char>),
            >(error@),
        },
{
    match ended {
        Err(error) => {
            return Err(error);
        },
        Ok(gone) => {
            if gone {
                return Err(failure(LabErrorKind::Other, "daemon exited before readiness"));
            }
        },
    }
    let text = match text {
        Ok(text) => text,
        Err(error) => {
            return Err(error);
        },
    };
    let chars = chars_of(text.as_str());
    if strip_suffix(chars.as_slice(), "\n").is_none() {
        return Ok(None);
    }
    match readiness_path(text.as_str()) {
        Ok(device) => Ok(Some(device)),
        Err(error) => Err(error),
    }
}

/// Law: a starting daemon has announced a device exactly if it still runs and has printed one line,
/// the path of a ublk device; as long as it runs and has not ended a line, it is waited for, and
/// anything else ends the wait.
pub proof fn law_daemon_is_ready_by_one_line(ended: Observed<bool>, text: Observed<String>)
    ensures
        (start_line_of(ended, text) matches Ok(Some(_))) <==> {
            &&& ended == Ok::<bool, LabError>(false)
            &&& text matches Ok(found) && exists|number: u32|
                found@ == "/dev/ublkb"@ + #[trigger] decimal(number as int) + "\n"@
        },
        (start_line_of(ended, text) matches Ok(None)) <==> {
            &&& ended == Ok::<bool, LabError>(false)
            &&& text matches Ok(found) && (found@.len() == 0 || found@.last() != '\n')
        },
{
    reveal_strlit("\n");
    assert("\n"@ =~= seq!['\n']);
    if let Ok(found) = text {
        law_readiness_is_one_device_line(found@);
        if found@.len() > 0 && found@.last() == '\n' {
            assert(found@.skip(found@.len() - 1) =~= "\n"@);
        }
        if has_suffix(found@, "\n"@) {
            assert(found@.skip(found@.len() - 1)[0] == "\n"@[0]);
        }
    }
}

/// What follows a look at a starting daemon.
#[derive(Debug)]
pub enum StartStep {
    Ready(Device),
    /// Look again after a pause.
    Again,
    Fail(LabError),
}

/// Decides what follows a look at a starting daemon: `device` is what reading the announced device
/// came to, if one was announced, `late` whether the time was up then, and `expired` whether it
/// is up by now.
pub fn start_step(device: Option<Result<Device, LabError>>, late: bool, expired: bool) -> (step:
    StartStep)
    ensures
        match device {
            Some(Ok(found)) => step == StartStep::Ready(found),
            _ => if device is Some && late {
                &&& device matches Some(Err(cause))
                &&& step matches StartStep::Fail(error)
                &&& error@ == cause@
            } else if expired {
                step matches StartStep::Fail(error) && error@ == (
                    LabErrorKind::TimedOut,
                    "daemon readiness timed out"@,
                )
            } else {
                step is Again
            },
        },
{
    match device {
        Some(Ok(found)) => {
            return StartStep::Ready(found);
        },
        Some(Err(error)) => {
            if late {
                return StartStep::Fail(error);
            }
        },
        None => {},
    }
    if expired {
        StartStep::Fail(failure(LabErrorKind::TimedOut, "daemon readiness timed out"))
    } else {
        StartStep::Again
    }
}

/// How many settings of a device are compared with what is expected.
pub const FIELD_COUNT: usize = 3;

/// A setting of the device in sysfs, and what it must be.
pub open spec fn field_of(index: int) -> (Seq<char>, Seq<char>) {
    if index == 0 {
        ("queue/logical_block_size"@, "4096"@)
    } else if index == 1 {
        ("queue/physical_block_size"@, "4096"@)
    } else {
        ("queue/max_sectors_kb"@, "4"@)
    }
}

/// A setting of the device in sysfs, and what it must be.
pub fn field(index: usize) -> (found: (&'static str, &'static str))
    requires
        index < FIELD_COUNT,
    ensures
        (found.0@, found.1@) == field_of(index as int),
{
    if index == 0 {
        ("queue/logical_block_size", "4096")
    } else if index == 1 {
        ("queue/physical_block_size", "4096")
    } else {
        ("queue/max_sectors_kb", "4")
    }
}

/// Demands that a setting of the device is what it must be, apart from white space around it.
pub fn require_field(index: usize, actual: &str) -> (result: Result<(), LabError>)
    requires
        index < FIELD_COUNT,
    ensures
        demanded(
            trimmed(actual@) == field_of(index as int).1,
            "unexpected "@ + field_of(index as int).0 + ": "@ + actual@,
            result,
        ),
{
    let (name, expected) = field(index);
    let chars = chars_of(actual);
    if spells(trim(chars.as_slice()), expected) {
        return Ok(());
    }
    let mut message = String::from_str("unexpected ");
    message.append(name);
    message.append(": ");
    message.append(actual);
    Err(failure_text(LabErrorKind::Other, message))
}

/// Demands that a daemon that was asked to end did so successfully; `text` tells how it ended.
pub fn require_clean_stop(outcome: &Outcome, text: &str) -> (result: Result<(), LabError>)
    ensures
        demanded(
            *outcome matches Outcome::Exit(exit) && exit.succeeded(),
            "clean daemon stop failed: "@ + text@,
            result,
        ),
{
    match outcome {
        Outcome::Exit(exit) => {
            if exit.success() {
                return Ok(());
            }
        },
        Outcome::Timeout => {},
    }
    let mut message = String::from_str("clean daemon stop failed: ");
    message.append(text);
    Err(failure_text(LabErrorKind::Other, message))
}

/// Decides what follows a look for something that a stopped device leaves.
pub fn after_stop(path: &str, present: Observed<bool>, expired: bool) -> (step: PollStep)
    ensures
        match present {
            Err(error) => step matches PollStep::Fail(found) && found@ == error@,
            Ok(false) => step is Done,
            Ok(true) => if expired {
                step matches PollStep::Fail(found) && found@ == (
                    LabErrorKind::TimedOut,
                    "device remains after clean stop: "@ + path@,
                )
            } else {
                step is Again
            },
        },
{
    match present {
        Err(error) => PollStep::Fail(error),
        Ok(there) => {
            if !there {
                PollStep::Done
            } else if expired {
                let mut message = String::from_str("device remains after clean stop: ");
                message.append(path);
                PollStep::Fail(failure_text(LabErrorKind::TimedOut, message))
            } else {
                PollStep::Again
            }
        },
    }
}

/// Demands that a daemon has complained of nothing.
pub fn check_daemon_errors(stderr: &str) -> (result: Result<(), LabError>)
    ensures
        demanded(
            find_in(stderr@, "request rejected:"@) is None && find_in(stderr@, "panicked"@) is None,
            "daemon rejected a request or panicked; inspect preserved daemon stderr"@,
            result,
        ),
{
    let chars = chars_of(stderr);
    demand(
        !contains(chars.as_slice(), "request rejected:") && !contains(
            chars.as_slice(),
            "panicked",
        ),
        "daemon rejected a request or panicked; inspect preserved daemon stderr",
    )
}

/// Demands that nothing of the lab is alive.
pub fn require_nothing_alive(daemon: bool, device: bool, command: bool, mount_attempted: bool) -> (result:
    Result<(), LabError>)
    ensures
        demanded(
            !daemon && !device && !command && !mount_attempted,
            "owned live resources remain"@,
            result,
        ),
{
    demand(!daemon && !device && !command && !mount_attempted, "owned live resources remain")
}

/// Whether something is mounted at or below a directory.
pub open spec fn mounted_below(table: Seq<Mount>, directory: Seq<char>) -> bool {
    exists|i: int| 0 <= i < table.len() && lies_under((#[trigger] table[i])@.target, directory)
}

/// Demands that nothing is mounted at or below the lab's directory.
pub fn require_no_mount_below(table: &Vec<Mount>, directory: &str) -> (result: Result<(), LabError>)
    ensures
        demanded(
            !mounted_below(table@, directory@),
            "mount remains under owned fixture"@,
            result,
        ),
{
    let mut i: usize = 0;
    while i < table.len()
        invariant
            i <= table@.len(),
            forall|j: int|
                0 <= j < i ==> !lies_under((#[trigger] table@[j])@.target, directory@),
        decreases table@.len() - i,
    {
        if starts_with(table[i].target.as_str(), directory) {
            assert(lies_under(table@[i as int]@.target, directory@));
            return Err(failure(LabErrorKind::Other, "mount remains under owned fixture"));
        }
        i = i + 1;
    }
    Ok(())
}

/// Demands that the mount directory is the one that was made, before it is removed.
pub fn require_unchanged_mount_directory(identity: FileIdentity, expected: Option<FileIdentity>) -> (result:
    Result<(), LabError>)
    ensures
        demanded(
            expected == Some(identity),
            "mount directory changed before removal"@,
            result,
        ),
{
    let same = match expected {
        Some(recorded) => recorded == identity,
        None => false,
    };
    demand(same, "mount directory changed before removal")
}

/// Demands that an entry of the lab's directory is one that the lab made.
pub fn require_own_entry(entry: NodeFacts, directory: NodeFacts) -> (result: Result<(), LabError>)
    ensures
        demanded(
            entry.kind == NodeKind::File && entry.uid == directory.uid && entry.identity.device
                == directory.identity.device,
            "unexpected cleanup entry; preserving the image and evidence"@,
            result,
        ),
{
    demand(
        entry.kind == NodeKind::File && entry.uid == directory.uid && entry.identity.device
            == directory.identity.device,
        "unexpected cleanup entry; preserving the image and evidence",
    )
}

/// Demands that the lab's directory is gone.
pub fn require_removed(exists: bool) -> (result: Result<(), LabError>)
    ensures
        demanded(!exists, "temporary directory remains after cleanup"@, result),
{
    demand(!exists, "temporary directory remains after cleanup")
}

/// Where the recovery after a failure stands, and what it waits for.
#[derive(Clone, Copy, Debug, PartialEq, Eq, Structural)]
pub enum RecoveryPhase {
    /// Clean up the command that was running.
    CleanCommand,
    /// See whether the daemon, whose device was never recorded, has ended.
    DaemonEnded,
    /// Clean up that daemon.
    CleanDaemon,
    /// See whether the device is unmounted.
    Mounted,
    /// Unmount it.
    Unmount,
    /// Stop the daemon.
    Stop,
    /// Record what the daemon printed.
    Log,
    Finished,
}

/// What came of the step that a recovery waits for.
#[derive(Debug)]
pub enum RecoveryEvent {
    Done(Result<(), LabError>),
    /// Whether the daemon has ended, or whether the device is mounted.
    Answer(Observed<bool>),
}

/// The recovery after a failure. It ends at the first thing that goes wrong.
#[derive(Debug)]
pub struct Recovery {
    pub phase: RecoveryPhase,
    pub daemon: bool,
    pub device: bool,
    pub mount_attempted: bool,
    pub error: Option<LabError>,
}

/// The meaning of a recovery.
pub ghost struct RecoveryView {
    pub phase: RecoveryPhase,
    pub daemon: bool,
    pub device: bool,
    pub mount_attempted: bool,
    pub error: Option<(LabErrorKind, Seq<char>)>,
}

impl View for Recovery {
    type V = RecoveryView;

    open spec fn view(&self) -> RecoveryView {
        RecoveryView {
            phase: self.phase,
            daemon: self.daemon,
            device: self.device,
            mount_attempted: self.mount_attempted,
            error: match self.error {
                None => None,
                Some(error) => Some(error@),
            },
        }
    }
}

impl RecoveryView {
    /// The recovery in another phase.
    pub open spec fn to(self, phase: RecoveryPhase) -> RecoveryView {
        RecoveryView { phase, ..self }
    }

    /// The end of a recovery that something stopped.
    pub open spec fn stopped(self, error: (LabErrorKind, Seq<char>)) -> RecoveryView {
        RecoveryView { phase: RecoveryPhase::Finished, error: Some(error), ..self }
    }

    /// After the command that was running.
    pub open spec fn command_done(self) -> RecoveryView {
        if self.device {
            self.to(RecoveryPhase::Mounted)
        } else if self.daemon {
            self.to(RecoveryPhase::DaemonEnded)
        } else {
            self.to(RecoveryPhase::Log)
        }
    }

    /// Whether `event` is what the recovery waits for.
    pub open spec fn expects(self, event: RecoveryEvent) -> bool {
        match self.phase {
            RecoveryPhase::DaemonEnded | RecoveryPhase::Mounted => event is Answer,
            RecoveryPhase::Finished => false,
            _ => event is Done,
        }
    }

    /// The recovery after an event.
    pub open spec fn next(self, event: RecoveryEvent) -> RecoveryView {
        match event {
            RecoveryEvent::Done(Err(error)) => self.stopped(error@),
            RecoveryEvent::Answer(Err(error)) => self.stopped(error@),
            RecoveryEvent::Done(Ok(())) => match self.phase {
                RecoveryPhase::CleanCommand => self.command_done(),
                RecoveryPhase::CleanDaemon | RecoveryPhase::Stop => self.to(RecoveryPhase::Log),
                RecoveryPhase::Unmount => self.to(RecoveryPhase::Stop),
                _ => self.to(RecoveryPhase::Finished),
            },
            RecoveryEvent::Answer(Ok(yes)) => if self.phase == RecoveryPhase::DaemonEnded {
                if yes {
                    self.to(RecoveryPhase::CleanDaemon)
                } else {
                    self.stopped(
                        (
                            LabErrorKind::Other,
                            "daemon identity was not established; preserving process and image"@,
                        ),
                    )
                }
            } else if !yes {
                self.to(RecoveryPhase::Stop)
            } else if self.mount_attempted {
                self.to(RecoveryPhase::Unmount)
            } else {
                self.stopped(
                    (LabErrorKind::Other, "unrecorded mount appeared; preserving daemon"@),
                )
            },
        }
    }
}

/// The start of the recovery of what a failed run has left.
pub open spec fn recovery_of(command: bool, daemon: bool, device: bool, mount_attempted: bool) -> RecoveryView {
    let start = RecoveryView {
        phase: RecoveryPhase::CleanCommand,
        daemon,
        device,
        mount_attempted,
        error: None,
    };
    if command {
        start
    } else {
        start.command_done()
    }
}

impl Recovery {
    /// Starts the recovery of what a failed run has left.
    pub fn new(command: bool, daemon: bool, device: bool, mount_attempted: bool) -> (recovery:
        Recovery)
        ensures
            recovery@ == recovery_of(command, daemon, device, mount_attempted),
    {
        let mut recovery = Recovery {
            phase: RecoveryPhase::CleanCommand,
            daemon,
            device,
            mount_attempted,
            error: None,
        };
        if !command {
            recovery.finish_command();
        }
        recovery
    }

    fn finish_command(&mut self)
        ensures
            final(self)@ == old(self)@.command_done(),
    {
        self.phase = if self.device {
            RecoveryPhase::Mounted
        } else if self.daemon {
            RecoveryPhase::DaemonEnded
        } else {
            RecoveryPhase::Log
        };
    }

    fn stop(&mut self, error: LabError)
        ensures
            final(self)@ == old(self)@.stopped(error@),
    {
        self.phase = RecoveryPhase::Finished;
        self.error = Some(error);
    }

    /// Takes what came of the step that the recovery waits for.
    pub fn advance(&mut self, event: RecoveryEvent)
        requires
            old(self)@.expects(event),
        ensures
            final(self)@ == old(self)@.next(event),
    {
        match event {
            RecoveryEvent::Done(Err(error)) => self.stop(error),
            RecoveryEvent::Answer(Err(error)) => self.stop(error),
            RecoveryEvent::Done(Ok(())) => {
                match self.phase {
                    RecoveryPhase::CleanCommand => self.finish_command(),
                    RecoveryPhase::CleanDaemon | RecoveryPhase::Stop => {
                        self.phase = RecoveryPhase::Log;
                    },
                    RecoveryPhase::Unmount => {
                        self.phase = RecoveryPhase::Stop;
                    },
                    _ => {
                        self.phase = RecoveryPhase::Finished;
                    },
                }
            },
            RecoveryEvent::Answer(Ok(yes)) => {
                if self.phase == RecoveryPhase::DaemonEnded {
                    if yes {
                        self.phase = RecoveryPhase::CleanDaemon;
                    } else {
                        self.stop(
                            failure(
                                LabErrorKind::Other,
                                "daemon identity was not established; preserving process and image",
                            ),
                        );
                    }
                } else if !yes {
                    self.phase = RecoveryPhase::Stop;
                } else if self.mount_attempted {
                    self.phase = RecoveryPhase::Unmount;
                } else {
                    self.stop(
                        failure(
                            LabErrorKind::Other,
                            "unrecorded mount appeared; preserving daemon",
                        ),
                    );
                }
            },
        }
    }

    /// What the recovery came to.
    pub fn result(self) -> (result: Result<(), LabError>)
        ensures
            match result {
                Ok(()) => self@.error is None,
                Err(error) => self@.error == Some(error@),
            },
    {
        match self.error {
            None => Ok(()),
            Some(error) => Err(error),
        }
    }
}

/// Law: a daemon is stopped only when its device is not mounted, and a mount that the lab did not
/// make is left alone.
pub proof fn law_recovery_stops_only_unmounted_devices(
    recovery: RecoveryView,
    event: RecoveryEvent,
)
    requires
        recovery.expects(event),
    ensures
        recovery.next(event).phase == RecoveryPhase::Stop ==> {
            ||| recovery.phase == RecoveryPhase::Unmount && event matches RecoveryEvent::Done(
                Ok(_),
            )
            ||| recovery.phase == RecoveryPhase::Mounted && event == RecoveryEvent::Answer(
                Ok(false),
            )
        },
        recovery.next(event).phase == RecoveryPhase::Unmount ==> recovery.mount_attempted,
        recovery.next(event).error is Some && recovery.error is None ==> recovery.next(event).phase
            == RecoveryPhase::Finished,
{
}

/// Law: a recovery leaves out nothing that is left. It cleans up a command that is running before
/// all else; then it looks whether a recorded device is mounted, or whether a daemon whose device
/// was not recorded has ended; it unmounts what is mounted, stops the daemon, and records what it
/// has printed. It ends early exactly at an error, at a daemon of unknown identity that still runs,
/// and at a mount that the lab did not make.
pub proof fn law_recovery_leaves_out_nothing(
    command: bool,
    daemon: bool,
    device: bool,
    mount_attempted: bool,
    event: RecoveryEvent,
    recovery: RecoveryView,
)
    requires
        recovery.expects(event),
    ensures
        recovery_of(command, daemon, device, mount_attempted).phase == (if command {
            RecoveryPhase::CleanCommand
        } else if device {
            RecoveryPhase::Mounted
        } else if daemon {
            RecoveryPhase::DaemonEnded
        } else {
            RecoveryPhase::Log
        }),
        recovery_of(command, daemon, device, mount_attempted).error is None,
        ({
            let after = recovery.next(event);
            let failed = (event matches RecoveryEvent::Done(Err(_))) || (event
                matches RecoveryEvent::Answer(Err(_)));
            let yes = event == RecoveryEvent::Answer(Ok(true));
            &&& failed ==> after.phase is Finished && after.error is Some
            &&& !failed && recovery.phase is CleanCommand ==> after.phase == recovery_of(
                false,
                recovery.daemon,
                recovery.device,
                recovery.mount_attempted,
            ).phase
            &&& !failed && recovery.phase is DaemonEnded ==> (if yes {
                after.phase is CleanDaemon
            } else {
                after.phase is Finished && after.error is Some
            })
            &&& !failed && recovery.phase is Mounted ==> (if !yes {
                after.phase is Stop
            } else if recovery.mount_attempted {
                after.phase is Unmount
            } else {
                after.phase is Finished && after.error is Some
            })
            &&& !failed && recovery.phase is Unmount ==> after.phase is Stop
            &&& !failed && (recovery.phase is Stop || recovery.phase is CleanDaemon)
                ==> after.phase is Log
            &&& !failed && recovery.phase is Log ==> after.phase is Finished && after.error
                == recovery.error
            &&& after.daemon == recovery.daemon
            &&& after.device == recovery.device
            &&& after.mount_attempted == recovery.mount_attempted
        }),
{
}

/// What the record says of the limits.
pub fn limits_line(per_command_seconds: u64, suite_seconds: u64) -> (line: String)
    ensures
        line@ == "limits: repetitions=3 per_command_s="@ + decimal(per_command_seconds as int)
            + " suite_s="@ + decimal(suite_seconds as int) + " volume_bytes="@ + decimal(
            VOLUME_BYTES as int,
        ) + " backing_bytes="@ + decimal(BACKING_BYTES as int),
{
    let mut line = String::from_str("limits: repetitions=3 per_command_s=");
    push_decimal(&mut line, per_command_seconds);
    line.append(" suite_s=");
    push_decimal(&mut line, suite_seconds);
    line.append(" volume_bytes=");
    push_decimal(&mut line, VOLUME_BYTES);
    line.append(" backing_bytes=");
    push_decimal(&mut line, BACKING_BYTES);
    line
}

/// Law: a mount below a directory is found wherever it stands in the table.
pub proof fn law_every_mount_is_looked_at(
    first: Seq<Mount>,
    second: Seq<Mount>,
    mount: Mount,
    directory: Seq<char>,
)
    ensures
        mounted_below(first + second, directory) <==> mounted_below(first, directory)
            || mounted_below(second, directory),
        mounted_below(seq![mount], directory) <==> lies_under(mount.target@, directory),
        !mounted_below(Seq::empty(), directory),
{
    let all = first + second;
    if mounted_below(first, directory) {
        let i = choose|i: int|
            0 <= i < first.len() && lies_under((#[trigger] first[i])@.target, directory);
        assert(all[i] == first[i]);
    }
    if mounted_below(second, directory) {
        let i = choose|i: int|
            0 <= i < second.len() && lies_under((#[trigger] second[i])@.target, directory);
        assert(all[first.len() + i] == second[i]);
    }
    if mounted_below(all, directory) {
        let i = choose|i: int|
            0 <= i < all.len() && lies_under((#[trigger] all[i])@.target, directory);
        if i < first.len() {
            assert(first[i] == all[i]);
        } else {
            assert(second[i - first.len()] == all[i]);
        }
    }
    assert(seq![mount][0] == mount);
}

/// Law: the three settings that are compared are the two block sizes, which must be 4096 bytes, and
/// the greatest request, which must be 4 KiB.
pub proof fn law_compared_settings()
    ensures
        field_of(0) == ("queue/logical_block_size"@, "4096"@),
        field_of(1) == ("queue/physical_block_size"@, "4096"@),
        field_of(2) == ("queue/max_sectors_kb"@, "4"@),
{
}

/// Law: the files that catch what commands print have different names for different commands and
/// for the two streams, as long as the numbers have three digits.
pub proof fn law_captures_have_their_own_names(
    number: int,
    other: int,
    label: Seq<char>,
    other_label: Seq<char>,
    stream: Seq<char>,
    other_stream: Seq<char>,
)
    requires
        0 <= number < 1000,
        0 <= other < 1000,
        number != other,
    ensures
        capture_name(number, label, stream) != capture_name(other, other_label, other_stream),
{
    assert(power(10, 3) == 1000) by {
        reveal_with_fuel(power, 4);
    }
    law_base_digits_denote_their_number(number, 10, 3);
    law_base_digits_denote_their_number(other, 10, 3);
    let left = capture_name(number, label, stream);
    let right = capture_name(other, other_label, other_stream);
    if left == right {
        assert(left.take(3) =~= decimal3(number));
        assert(right.take(3) =~= decimal3(other));
    }
}

} // verus!
