//! What the ublk lab demands of its surroundings, its daemon and its backing.

use crate::lab::command::CommandLine;
#[allow(unused_imports)]
use crate::lab::command::CommandView;
use crate::lab::error::{failure, failure_text, LabError, LabErrorKind};
#[allow(unused_imports)]
use crate::lab::error::demanded;
use crate::lab::node::{FileIdentity, NodeFacts, NodeKind, Observed};
use crate::lab::process::{Exit, Outcome, SIGNAL_KILL};
use crate::lab::scenario::parse_exhaustion_json;
#[allow(unused_imports)]
use crate::lab::scenario::report_of;
use crate::lab::ublk::Geometry;
use crate::paths::same;
#[allow(unused_imports)]
use crate::paths::same_path;
use crate::text::{chars_of, decimal_text, push_base, push_decimal, spells};
#[allow(unused_imports)]
use crate::text::{base_digits, decimal};
use vstd::prelude::*;

verus! {

/// What a daemon prints when another one holds its backing.
pub const LOCK_ERROR: &'static str = "block-storage-ublk: backing file is already locked\n";

/// The error number of a device that is full.
pub const NO_SPACE: u64 = 28;

/// How many bytes fit before the device is full.
pub const EXHAUSTION_BYTES: u64 = 131_072;

/// Formats `backing` with the expected geometry.
pub fn format_command(daemon: &str, backing: &str) -> (command: CommandLine)
    ensures
        command@ == CommandView::of(
            daemon@,
            seq!["format"@, backing@, decimal(286_720), decimal(262_144)],
        ),
{
    let geometry = Geometry::expected();
    let mut command = CommandLine::new(daemon);
    command.arg("format");
    command.arg(backing);
    command.arg_text(decimal_text(geometry.backing_bytes()));
    command.arg_text(decimal_text(geometry.volume_bytes()));
    assert(command@.args =~= seq!["format"@, backing@, decimal(286_720), decimal(262_144)]);
    command
}

/// Serves `backing` as a device whose number the driver chooses.
pub fn serve_command(daemon: &str, backing: &str) -> (command: CommandLine)
    ensures
        command@ == CommandView::of(daemon@, seq!["serve"@, backing@, "-1"@]),
{
    let mut command = CommandLine::new(daemon);
    command.arg("serve");
    command.arg(backing);
    command.arg("-1");
    assert(command@.args =~= seq!["serve"@, backing@, "-1"@]);
    command
}

/// Deletes the device with number `id`.
pub fn delete_command(daemon: &str, id: u32) -> (command: CommandLine)
    ensures
        command@ == CommandView::of(daemon@, seq!["delete"@, decimal(id as int)]),
{
    let mut command = CommandLine::new(daemon);
    command.arg("delete");
    command.arg_text(decimal_text(id as u64));
    assert(command@.args =~= seq!["delete"@, decimal(id as int)]);
    command
}

/// Has fio read the arguments of `command` without running it.
pub fn parse_only_command(command: &CommandLine) -> (parse: CommandLine)
    ensures
        parse@ == CommandView::of(
            "fio"@,
            seq!["--parse-only"@, "--warnings-fatal"@] + command@.args,
        ),
{
    let mut parse = CommandLine::new("fio");
    parse.arg("--parse-only");
    parse.arg("--warnings-fatal");
    let ghost head = seq!["--parse-only"@, "--warnings-fatal"@];
    assert(parse@.args =~= head + command@.args.take(0));
    let mut i: usize = 0;
    while i < command.args.len()
        invariant
            i <= command.args@.len(),
            head == seq!["--parse-only"@, "--warnings-fatal"@],
            parse@ == CommandView::of("fio"@, head + command@.args.take(i as int)),
        decreases command.args@.len() - i,
    {
        parse.arg(command.args[i].as_str());
        assert(command@.args[i as int] == command.args@[i as int]@);
        assert(parse@.args =~= head + command@.args.take(i + 1));
        i = i + 1;
    }
    assert(command@.args.take(command@.args.len() as int) =~= command@.args);
    parse
}

/// The command with which fio judges `command`, which must be one of fio's.
pub fn validate_fio_command(command: &CommandLine) -> (result: Result<CommandLine, LabError>)
    ensures
        match result {
            Ok(parse) => {
                &&& command@.program == "fio"@
                &&& parse@ == CommandView::of(
                    "fio"@,
                    seq!["--parse-only"@, "--warnings-fatal"@] + command@.args,
                )
            },
            Err(error) => command@.program != "fio"@ && error@ == (
                LabErrorKind::InvalidInput,
                "expected an fio command"@,
            ),
        },
{
    let program = chars_of(command.program.as_str());
    if !spells(program.as_slice(), "fio") {
        return Err(failure(LabErrorKind::InvalidInput, "expected an fio command"));
    }
    Ok(parse_only_command(command))
}

/// Demands that a program succeeded.
pub fn require_success(label: &str, exit: &Exit) -> (result: Result<(), LabError>)
    ensures
        demanded(exit.succeeded(), label@ + " failed with "@ + exit.text@, result),
{
    if exit.success() {
        return Ok(());
    }
    let mut message = String::from_str(label);
    message.append(" failed with ");
    message.append(exit.text.as_str());
    Err(failure_text(LabErrorKind::Other, message))
}

/// What is said of a program that was waited for: nothing where it succeeded.
pub open spec fn outcome_refusal(
    outcome: Outcome,
    failed: Seq<char>,
    late: Seq<char>,
) -> Option<(LabErrorKind, Seq<char>)> {
    match outcome {
        Outcome::Exit(exit) => if exit.succeeded() {
            None
        } else {
            Some((LabErrorKind::Other, failed + exit.text@))
        },
        Outcome::Timeout => Some((LabErrorKind::TimedOut, late)),
    }
}

fn require_outcome(outcome: Outcome, failed: &str, late: &str) -> (result: Result<(), LabError>)
    ensures
        match result {
            Ok(()) => outcome_refusal(outcome, failed@, late@) is None,
            Err(error) => outcome_refusal(outcome, failed@, late@) == Some(error@),
        },
{
    match outcome {
        Outcome::Exit(exit) => {
            if exit.success() {
                return Ok(());
            }
            let mut message = String::from_str(failed);
            message.append(exit.text.as_str());
            Err(failure_text(LabErrorKind::Other, message))
        },
        Outcome::Timeout => Err(failure(LabErrorKind::TimedOut, late)),
    }
}

/// Law: a program that was waited for passes exactly if it ended in time with exit code zero, and
/// one that did not end in time has a timeout as its error.
pub proof fn law_only_success_in_time_passes(outcome: Outcome, failed: Seq<char>, late: Seq<char>)
    ensures
        outcome_refusal(outcome, failed, late) is None <==> (outcome matches Outcome::Exit(exit)
            && exit.code == Some(0i32)),
        outcome is Timeout ==> outcome_refusal(outcome, failed, late) == Some(
            (LabErrorKind::TimedOut, late),
        ),
{
}

/// Demands that fio accepted a command that it only read.
pub fn require_fio_parsed(outcome: Outcome) -> (result: Result<(), LabError>)
    ensures
        match result {
            Ok(()) => outcome_refusal(
                outcome,
                "fio rejected command with "@,
                "fio parse-only preflight timed out"@,
            ) is None,
            Err(error) => outcome_refusal(
                outcome,
                "fio rejected command with "@,
                "fio parse-only preflight timed out"@,
            ) == Some(error@),
        },
{
    require_outcome(outcome, "fio rejected command with ", "fio parse-only preflight timed out")
}

/// Demands that fio told its version.
pub fn require_fio_version(outcome: Outcome) -> (result: Result<(), LabError>)
    ensures
        match result {
            Ok(()) => outcome_refusal(
                outcome,
                "fio --version failed with "@,
                "fio --version preflight timed out"@,
            ) is None,
            Err(error) => outcome_refusal(
                outcome,
                "fio --version failed with "@,
                "fio --version preflight timed out"@,
            ) == Some(error@),
        },
{
    require_outcome(outcome, "fio --version failed with ", "fio --version preflight timed out")
}

/// Demands that a daemon that was asked to end did so successfully and in time.
pub fn require_graceful_stop(outcome: Outcome) -> (result: Result<(), LabError>)
    ensures
        match result {
            Ok(()) => outcome_refusal(
                outcome,
                "daemon SIGTERM exit was "@,
                "daemon SIGTERM timed out"@,
            ) is None,
            Err(error) => outcome_refusal(
                outcome,
                "daemon SIGTERM exit was "@,
                "daemon SIGTERM timed out"@,
            ) == Some(error@),
        },
{
    require_outcome(outcome, "daemon SIGTERM exit was ", "daemon SIGTERM timed out")
}

/// Demands that a daemon that was killed ended by exactly that signal and in time.
pub fn require_killed(outcome: Outcome) -> (result: Result<(), LabError>)
    ensures
        match outcome {
            Outcome::Exit(exit) => demanded(
                exit.signal == Some(SIGNAL_KILL),
                "SIGKILL daemon exit was "@ + exit.text@,
                result,
            ),
            Outcome::Timeout => result matches Err(error) && error@ == (
                LabErrorKind::TimedOut,
                "daemon SIGKILL timed out"@,
            ),
        },
{
    match outcome {
        Outcome::Exit(exit) => {
            let killed = match exit.signal {
                Some(signal) => signal == SIGNAL_KILL,
                None => false,
            };
            if killed {
                return Ok(());
            }
            let mut message = String::from_str("SIGKILL daemon exit was ");
            message.append(exit.text.as_str());
            Err(failure_text(LabErrorKind::Other, message))
        },
        Outcome::Timeout => Err(failure(LabErrorKind::TimedOut, "daemon SIGKILL timed out")),
    }
}

/// How it is recorded that a daemon was killed.
pub fn killed_line() -> (line: String)
    ensures
        line@ == "daemon SIGKILL: signal="@ + decimal(SIGNAL_KILL as int),
{
    let mut line = String::from_str("daemon SIGKILL: signal=");
    push_decimal(&mut line, SIGNAL_KILL as u64);
    line
}

/// Demands that a second daemon on the same backing failed in exactly the expected way.
pub fn require_lock_failure(exit: &Exit, stdout_empty: bool, stderr: &str) -> (result: Result<
    (),
    LabError,
>)
    ensures
        demanded(
            exit.code == Some(1i32) && stdout_empty && stderr@ == LOCK_ERROR@,
            "second daemon did not produce exact backing-lock failure (status "@ + exit.text@
                + ")"@,
            result,
        ),
{
    let one = match exit.code {
        Some(code) => code == 1,
        None => false,
    };
    if one && stdout_empty {
        let said = chars_of(stderr);
        if spells(said.as_slice(), LOCK_ERROR) {
            return Ok(());
        }
    }
    let mut message = String::from_str(
        "second daemon did not produce exact backing-lock failure (status ",
    );
    message.append(exit.text.as_str());
    message.append(")");
    Err(failure_text(LabErrorKind::Other, message))
}

/// Why a run that fills the device did not go as expected, if it did not.
pub open spec fn exhaustion_refusal(exit: Exit, stdout: Seq<char>) -> Option<
    (LabErrorKind, Seq<char>),
> {
    if exit.code != Some(1i32) {
        Some((LabErrorKind::Other, "exhaustion fio exit was "@ + exit.text@ + ", expected 1"@))
    } else {
        match report_of(stdout) {
            Err(message) => Some((LabErrorKind::InvalidData, message)),
            Ok((number, bytes)) => if number != NO_SPACE || bytes != EXHAUSTION_BYTES {
                Some(
                    (
                        LabErrorKind::Other,
                        "exhaustion result was errno="@ + decimal(number) + " io_bytes="@
                            + decimal(bytes) + ", expected errno=28 io_bytes=131072"@,
                    ),
                )
            } else {
                None
            },
        }
    }
}

/// Law: a run has filled the device exactly if fio failed with exit code one and reports that no
/// space was left after 32 blocks of 4096 bytes; any other report, and any other end, is refused.
pub proof fn law_exhaustion_is_exact(exit: Exit, stdout: Seq<char>)
    ensures
        exhaustion_refusal(exit, stdout) is None <==> {
            &&& exit.code == Some(1i32)
            &&& report_of(stdout) matches Ok((number, bytes)) && number == 28 && bytes == 32 * 4096
        },
{
}

/// Demands that fio ran out of space after exactly the writes that the log has room for.
pub fn require_exhaustion(exit: &Exit, stdout: &str) -> (result: Result<(), LabError>)
    ensures
        match result {
            Ok(()) => exhaustion_refusal(*exit, stdout@) is None,
            Err(error) => exhaustion_refusal(*exit, stdout@) == Some(error@),
        },
{
    let one = match exit.code {
        Some(code) => code == 1,
        None => false,
    };
    if !one {
        let mut message = String::from_str("exhaustion fio exit was ");
        message.append(exit.text.as_str());
        message.append(", expected 1");
        return Err(failure_text(LabErrorKind::Other, message));
    }
    let (number, bytes) = match parse_exhaustion_json(stdout) {
        Ok(found) => found,
        Err(error) => {
            return Err(error);
        },
    };
    if number != NO_SPACE || bytes != EXHAUSTION_BYTES {
        let mut message = String::from_str("exhaustion result was errno=");
        push_decimal(&mut message, number);
        message.append(" io_bytes=");
        push_decimal(&mut message, bytes);
        message.append(", expected errno=28 io_bytes=131072");
        return Err(failure_text(LabErrorKind::Other, message));
    }
    Ok(())
}

/// How an owner is written.
pub open spec fn owner_text(uid: u32, gid: u32) -> Seq<char> {
    if uid == 0 && gid == 0 {
        "0:0 (root:root)"@
    } else {
        decimal(uid as int) + ":"@ + decimal(gid as int)
    }
}

/// Why the control node cannot even be opened, if it cannot.
pub open spec fn control_refusal(path: Seq<char>, node: Observed<NodeFacts>) -> Option<
    (LabErrorKind, Seq<char>),
> {
    match node {
        Err(error) => if error.kind == LabErrorKind::NotFound {
            Some(
                (
                    error.kind,
                    path
                        + " is missing; ask an operator to load the ublk driver with: sudo modprobe ublk_drv; no resources created"@,
                ),
            )
        } else {
            Some(
                (
                    error.kind,
                    "cannot inspect "@ + path + ": "@ + error@.1 + "; no resources created"@,
                ),
            )
        },
        Ok(facts) => if facts.kind != NodeKind::CharDevice {
            Some(
                (
                    LabErrorKind::Other,
                    path
                        + " has the wrong node type; expected a character device; no resources created"@,
                ),
            )
        } else {
            None
        },
    }
}

/// Law: a control node is opened exactly if it is there and is a character device; where it could
/// not be inspected, the class of that error is kept.
pub proof fn law_only_character_devices_are_opened(path: Seq<char>, node: Observed<NodeFacts>)
    ensures
        control_refusal(path, node) is None <==> (node matches Ok(facts) && facts.kind
            is CharDevice),
        node matches Err(error) ==> (control_refusal(path, node) matches Some((kind, _)) && kind
            == error.kind),
{
}

/// What is said of a control node that cannot be opened.
pub open spec fn inaccessible_text(path: Seq<char>, node: NodeFacts, error: Seq<char>) -> Seq<char> {
    path + " is present but inaccessible: observed path="@ + path + " mode="@ + base_digits(
        (node.mode & 0o7777) as int,
        8,
        4,
    ) + " owner="@ + owner_text(node.uid, node.gid) + "; open read/write failed: "@ + error
        + "; the already-built lab binary needs appropriate privilege or an operator-installed udev permission rule; no resources created"@
}

fn owner_of(uid: u32, gid: u32) -> (text: String)
    ensures
        text@ == owner_text(uid, gid),
{
    if uid == 0 && gid == 0 {
        String::from_str("0:0 (root:root)")
    } else {
        let mut text = decimal_text(uid as u64);
        text.append(":");
        push_decimal(&mut text, gid as u64);
        text
    }
}

/// Demands that the control node is a character device that can be opened; `open` opens it and is
/// called only for a node of that type.
pub fn validate_control_node_with<F: FnOnce(&str) -> Observed<()>>(
    path: &str,
    node: Observed<NodeFacts>,
    open: F,
) -> (result: Result<(), LabError>)
    requires
        control_refusal(path@, node) is None ==> call_requires(open, (path,)),
    ensures
        match control_refusal(path@, node) {
            Some(refusal) => result matches Err(error) && error@ == refusal,
            None => exists|opened: Observed<()>| #[trigger]
                call_ensures(open, (path,), opened) && match opened {
                    Ok(()) => result is Ok,
                    Err(cause) => {
                        &&& node matches Ok(facts)
                        &&& result matches Err(error)
                        &&& error@ == (cause.kind, inaccessible_text(path@, facts, cause@.1))
                    },
                },
        },
{
    let facts = match node {
        Ok(facts) => facts,
        Err(error) => {
            if error.kind == LabErrorKind::NotFound {
                let mut message = String::from_str(path);
                message.append(
                    " is missing; ask an operator to load the ublk driver with: sudo modprobe ublk_drv; no resources created",
                );
                return Err(failure_text(error.kind, message));
            }
            let mut message = String::from_str("cannot inspect ");
            message.append(path);
            message.append(": ");
            message.append(error.message.as_str());
            message.append("; no resources created");
            return Err(failure_text(error.kind, message));
        },
    };
    if facts.kind != NodeKind::CharDevice {
        let mut message = String::from_str(path);
        message.append(
            " has the wrong node type; expected a character device; no resources created",
        );
        return Err(failure_text(LabErrorKind::Other, message));
    }
    match open(path) {
        Ok(()) => Ok(()),
        Err(cause) => {
            let mut message = String::from_str(path);
            message.append(" is present but inaccessible: observed path=");
            message.append(path);
            message.append(" mode=");
            push_base(&mut message, (facts.mode & 0o7777) as u64, 8, 4);
            message.append(" owner=");
            message.append(owner_of(facts.uid, facts.gid).as_str());
            message.append("; open read/write failed: ");
            message.append(cause.message.as_str());
            message.append(
                "; the already-built lab binary needs appropriate privilege or an operator-installed udev permission rule; no resources created",
            );
            Err(failure_text(cause.kind, message))
        },
    }
}

/// Why the daemon's executable cannot be used, if it cannot.
pub open spec fn executable_refusal(path: Seq<char>, node: Observed<NodeFacts>) -> Option<
    (LabErrorKind, Seq<char>),
> {
    match node {
        Err(error) => Some(
            (error.kind, "missing sibling executable "@ + path + ": "@ + error@.1),
        ),
        Ok(facts) => if facts.kind != NodeKind::File || facts.mode & 0o111 == 0 {
            Some(
                (
                    LabErrorKind::Other,
                    "sibling "@ + path + " is not an executable regular file"@,
                ),
            )
        } else {
            None
        },
    }
}

/// Law: an executable is accepted exactly if it is a regular file that someone may run.
pub proof fn law_executables_can_be_run(path: Seq<char>, node: Observed<NodeFacts>)
    ensures
        executable_refusal(path, node) is None <==> (node matches Ok(facts) && facts.kind is File
            && facts.mode & 0o111 != 0),
{
}

/// Demands that the daemon's executable is a regular file that can be run.
pub fn require_executable(path: &str, node: Observed<NodeFacts>) -> (result: Result<(), LabError>)
    ensures
        match result {
            Ok(()) => executable_refusal(path@, node) is None,
            Err(error) => executable_refusal(path@, node) == Some(error@),
        },
{
    match node {
        Err(error) => {
            let mut message = String::from_str("missing sibling executable ");
            message.append(path);
            message.append(": ");
            message.append(error.message.as_str());
            Err(failure_text(error.kind, message))
        },
        Ok(facts) => {
            if facts.kind != NodeKind::File || facts.mode & 0o111 == 0 {
                let mut message = String::from_str("sibling ");
                message.append(path);
                message.append(" is not an executable regular file");
                return Err(failure_text(LabErrorKind::Other, message));
            }
            Ok(())
        },
    }
}

/// A backing that the lab made and has validated.
#[derive(Debug)]
pub struct OwnedBacking {
    pub path: String,
    pub identity: FileIdentity,
    pub bytes: u64,
}

/// What has been observed of a backing.
#[derive(Debug)]
pub struct BackingFacts {
    /// What validating the directory around it came to.
    pub directory: Result<(), LabError>,
    pub node: Observed<NodeFacts>,
    /// The file system of the directory around it.
    pub directory_device: Observed<u64>,
    pub effective_uid: u32,
    /// What opening it led to.
    pub opened: Observed<FileIdentity>,
}

/// Why a backing is refused, if it is.
pub open spec fn backing_refusal(
    path: Seq<char>,
    directory: Seq<char>,
    bytes: u64,
    expected: Option<FileIdentity>,
    facts: BackingFacts,
) -> Option<(LabErrorKind, Seq<char>)> {
    if facts.directory is Err {
        Some(facts.directory->Err_0@)
    } else if !same_path(path, directory + "/backing.img"@) {
        Some((LabErrorKind::Other, "backing path is not the exact owned path"@))
    } else {
        match facts.node {
            Err(error) => Some(error@),
            Ok(node) => if node.kind != NodeKind::File || node.uid != facts.effective_uid {
                Some((LabErrorKind::Other, "backing type, owner, filesystem, or size is invalid"@))
            } else {
                match facts.directory_device {
                    Err(error) => Some(error@),
                    Ok(device) => if node.identity.device != device || node.len != bytes {
                        Some(
                            (
                                LabErrorKind::Other,
                                "backing type, owner, filesystem, or size is invalid"@,
                            ),
                        )
                    } else if expected is Some && expected != Some(node.identity) {
                        Some((LabErrorKind::Other, "backing identity changed"@))
                    } else {
                        match facts.opened {
                            Err(error) => Some(error@),
                            Ok(opened) => if opened != node.identity {
                                Some(
                                    (
                                        LabErrorKind::Other,
                                        "opened backing identity differs from path"@,
                                    ),
                                )
                            } else {
                                None
                            },
                        }
                    },
                }
            },
        }
    }
}

/// Law: a backing is accepted exactly if the directory around it is the lab's own, it stands there
/// under its exact name, it is a regular file of the lab's user on the same file system and of
/// exactly the expected size, it is the recorded one where one was recorded, and opening it led to
/// that same file.
pub proof fn law_backings_are_the_labs_own(
    path: Seq<char>,
    directory: Seq<char>,
    bytes: u64,
    expected: Option<FileIdentity>,
    facts: BackingFacts,
)
    ensures
        backing_refusal(path, directory, bytes, expected, facts) is None <==> {
            &&& facts.directory is Ok
            &&& same_path(path, directory + "/backing.img"@)
            &&& facts.node matches Ok(node) && {
                &&& node.kind is File
                &&& node.uid == facts.effective_uid
                &&& node.len == bytes
                &&& facts.directory_device == Ok::<u64, LabError>(node.identity.device)
                &&& expected matches Some(identity) ==> identity == node.identity
                &&& facts.opened == Ok::<FileIdentity, LabError>(node.identity)
            }
        },
{
}

/// Takes charge of a backing in an owned directory, or refuses it.
pub fn validate_backing(
    path: &str,
    directory: &str,
    bytes: u64,
    expected: Option<FileIdentity>,
    facts: BackingFacts,
) -> (result: Result<OwnedBacking, LabError>)
    ensures
        match result {
            Ok(backing) => {
                &&& backing_refusal(path@, directory@, bytes, expected, facts) is None
                &&& backing.path@ == path@
                &&& backing.bytes == bytes
                &&& facts.node matches Ok(node) && backing.identity == node.identity
            },
            Err(error) => backing_refusal(path@, directory@, bytes, expected, facts) == Some(
                error@,
            ),
        },
{
    match facts.directory {
        Ok(()) => {},
        Err(error) => {
            return Err(error);
        },
    }
    let mut exact = String::from_str(directory);
    exact.append("/backing.img");
    if !same(path, exact.as_str()) {
        return Err(failure(LabErrorKind::Other, "backing path is not the exact owned path"));
    }
    let node = match facts.node {
        Ok(node) => node,
        Err(error) => {
            return Err(error);
        },
    };
    if node.kind != NodeKind::File || node.uid != facts.effective_uid {
        return Err(
            failure(LabErrorKind::Other, "backing type, owner, filesystem, or size is invalid"),
        );
    }
    let device: u64 = match facts.directory_device {
        Ok(device) => device,
        Err(error) => {
            return Err(error);
        },
    };
    if node.identity.device != device || node.len != bytes {
        return Err(
            failure(LabErrorKind::Other, "backing type, owner, filesystem, or size is invalid"),
        );
    }
    match expected {
        Some(identity) => {
            if identity != node.identity {
                return Err(failure(LabErrorKind::Other, "backing identity changed"));
            }
        },
        None => {},
    }
    match facts.opened {
        Err(error) => Err(error),
        Ok(opened) => {
            if opened != node.identity {
                return Err(
                    failure(LabErrorKind::Other, "opened backing identity differs from path"),
                );
            }
            Ok(OwnedBacking { path: String::from_str(path), identity: node.identity, bytes })
        },
    }
}

impl OwnedBacking {
    /// Demands that the backing is still the one that was validated.
    pub fn validate(&self, directory: &str, facts: BackingFacts) -> (result: Result<(), LabError>)
        ensures
            match result {
                Ok(()) => backing_refusal(
                    self.path@,
                    directory@,
                    self.bytes,
                    Some(self.identity),
                    facts,
                ) is None,
                Err(error) => backing_refusal(
                    self.path@,
                    directory@,
                    self.bytes,
                    Some(self.identity),
                    facts,
                ) == Some(error@),
            },
    {
        match validate_backing(
            self.path.as_str(),
            directory,
            self.bytes,
            Some(self.identity),
            facts,
        ) {
            Ok(_) => Ok(()),
            Err(error) => Err(error),
        }
    }
}

/// Describes the geometry for the record of a run.
pub fn geometry_line(geometry: Geometry) -> (line: String)
    requires
        geometry.block_bytes * geometry.backing_blocks <= u64::MAX,
    ensures
        line@ == "backing geometry: block_bytes="@ + decimal(geometry.block_bytes as int)
            + " volume_blocks="@ + decimal(geometry.volume_blocks as int) + " record_capacity="@
            + decimal(geometry.record_capacity as int) + " log_start_blocks="@ + decimal(
            geometry.log_start_blocks as int,
        ) + " backing_blocks="@ + decimal(geometry.backing_blocks as int) + " backing_bytes="@
            + decimal(geometry.block_bytes * geometry.backing_blocks),
{
    let mut line = String::from_str("backing geometry: block_bytes=");
    push_decimal(&mut line, geometry.block_bytes);
    line.append(" volume_blocks=");
    push_decimal(&mut line, geometry.volume_blocks);
    line.append(" record_capacity=");
    push_decimal(&mut line, geometry.record_capacity);
    line.append(" log_start_blocks=");
    push_decimal(&mut line, geometry.log_start_blocks);
    line.append(" backing_blocks=");
    push_decimal(&mut line, geometry.backing_blocks);
    line.append(" backing_bytes=");
    push_decimal(&mut line, geometry.backing_bytes());
    line
}

/// The last line of the record of a run.
pub fn result_line(result: &Result<(), LabError>) -> (line: String)
    ensures
        match *result {
            Ok(()) => line@ == "result: PASS"@,
            Err(error) => line@ == "result: FAIL "@ + error@.1,
        },
{
    match result {
        Ok(()) => String::from_str("result: PASS"),
        Err(error) => {
            let mut line = String::from_str("result: FAIL ");
            line.append(error.message.as_str());
            line
        },
    }
}

} // verus!
