//! The device that the lab recorded, and whether what is there now is still that device.

#[allow(unused_imports)]
use crate::lab::ext4::{law_readiness_is_one_device_line, without_feeds};
use crate::lab::error::{failure, failure_text, LabError, LabErrorKind};
use crate::lab::node::{FileIdentity, NodeFacts, NodeKind, Observed};
use crate::lab::process::Exit;
use crate::lab::ublk::DevicePath;
use crate::text::{chars_of, contains, equals, lines, push_decimal, string_of, strip_suffix};
#[allow(unused_imports)]
use crate::text::{
    decimal, find_from, find_in, has_suffix, law_lines_one_by_one, lemma_position, lines_of, occurs_at, position,
    split_on, views,
};
use vstd::prelude::*;

verus! {

/// What a recorded device has become.
#[derive(Clone, Copy, Debug, PartialEq, Eq, Structural)]
pub enum DeviceIdentityState {
    /// The device is there and in use.
    Matching,
    /// Only the device's class entry is left.
    StoppedMatching,
    /// Nothing is left of the device.
    Absent,
    /// Another device has taken its place.
    IdentityChanged,
}

/// What has been observed of the places where a device shows.
#[derive(Debug)]
pub struct PresenceFacts {
    /// Whether the device node is there.
    pub node: Observed<bool>,
    /// Whether the block device is in sysfs.
    pub block: Observed<bool>,
    /// Whether the class entry is in sysfs.
    pub class: Observed<bool>,
    /// What the class entry leads to.
    pub class_node: Observed<NodeFacts>,
}

/// A device whose identity was established.
#[derive(Debug)]
pub struct ValidatedDevice {
    pub path: DevicePath,
    pub class_identity: FileIdentity,
}

/// Whether an inspection found something: that nothing is there is an answer, too.
pub open spec fn presence_of(node: Observed<NodeFacts>) -> Result<bool, (LabErrorKind, Seq<char>)> {
    match node {
        Ok(_) => Ok(true),
        Err(error) => if error.kind == LabErrorKind::NotFound {
            Ok(false)
        } else {
            Err(error@)
        },
    }
}

/// Whether an inspection found something.
pub fn path_is_present(node: Observed<NodeFacts>) -> (present: Observed<bool>)
    ensures
        match present {
            Ok(there) => presence_of(node) == Ok::<bool, (LabErrorKind, Seq<char>)>(there),
            Err(error) => presence_of(node) == Err::<bool, (LabErrorKind, Seq<char>)>(error@),
        },
{
    match node {
        Ok(_) => Ok(true),
        Err(error) => {
            if error.kind == LabErrorKind::NotFound {
                Ok(false)
            } else {
                Err(error)
            }
        },
    }
}

/// What a device that does not validate has become, or why that is open.
pub open spec fn inactive_state(identity: FileIdentity, facts: PresenceFacts) -> Result<
    DeviceIdentityState,
    (LabErrorKind, Seq<char>),
> {
    match facts.node {
        Err(error) => Err(error@),
        Ok(node) => match facts.block {
            Err(error) => Err(error@),
            Ok(block) => match facts.class {
                Err(error) => Err(error@),
                Ok(class) => if node || block {
                    Err(
                        (
                            LabErrorKind::Other,
                            "recorded device paths are only partially present"@,
                        ),
                    )
                } else if !class {
                    Ok(DeviceIdentityState::Absent)
                } else {
                    match facts.class_node {
                        Err(error) => Err(error@),
                        Ok(entry) => if entry.kind != NodeKind::Directory {
                            Err(
                                (
                                    LabErrorKind::Other,
                                    "remaining ublk sysfs class entry is not a directory"@,
                                ),
                            )
                        } else if entry.identity == identity {
                            Ok(DeviceIdentityState::StoppedMatching)
                        } else {
                            Ok(DeviceIdentityState::IdentityChanged)
                        },
                    }
                },
            },
        },
    }
}

/// What a recorded device has become, or why that is open.
pub open spec fn identity_state(
    identity: FileIdentity,
    validation: Observed<FileIdentity>,
    facts: PresenceFacts,
) -> Result<DeviceIdentityState, (LabErrorKind, Seq<char>)> {
    match validation {
        Ok(found) => if found == identity {
            Ok(DeviceIdentityState::Matching)
        } else {
            Ok(DeviceIdentityState::IdentityChanged)
        },
        Err(first) => match inactive_state(identity, facts) {
            Ok(state) => Ok(state),
            Err(second) => Err(
                (
                    LabErrorKind::Other,
                    "cannot prove recorded device identity: "@ + first@.1
                        + "; state check failed: "@ + second.1,
                ),
            ),
        },
    }
}

impl ValidatedDevice {
    /// The device's number.
    pub fn id(&self) -> (id: u32)
        ensures
            id == self.path.number(),
    {
        self.path.id().get()
    }

    /// Decides what a device that does not validate has become.
    pub fn classify_inactive_identity(&self, facts: PresenceFacts) -> (result: Result<
        DeviceIdentityState,
        LabError,
    >)
        ensures
            match result {
                Ok(state) => inactive_state(self.class_identity, facts) == Ok::<
                    DeviceIdentityState,
                    (LabErrorKind, Seq<char>),
                >(state),
                Err(error) => inactive_state(self.class_identity, facts) == Err::<
                    DeviceIdentityState,
                    (LabErrorKind, Seq<char>),
                >(error@),
            },
    {
        let node = match facts.node {
            Ok(there) => there,
            Err(error) => {
                return Err(error);
            },
        };
        let block = match facts.block {
            Ok(there) => there,
            Err(error) => {
                return Err(error);
            },
        };
        let class = match facts.class {
            Ok(there) => there,
            Err(error) => {
                return Err(error);
            },
        };
        if node || block {
            return Err(
                failure(
                    LabErrorKind::Other,
                    "recorded device paths are only partially present",
                ),
            );
        }
        if !class {
            return Ok(DeviceIdentityState::Absent);
        }
        match facts.class_node {
            Err(error) => Err(error),
            Ok(entry) => {
                if entry.kind != NodeKind::Directory {
                    Err(
                        failure(
                            LabErrorKind::Other,
                            "remaining ublk sysfs class entry is not a directory",
                        ),
                    )
                } else if entry.identity == self.class_identity {
                    Ok(DeviceIdentityState::StoppedMatching)
                } else {
                    Ok(DeviceIdentityState::IdentityChanged)
                }
            },
        }
    }

    /// Decides what the device has become: `validation` is what validating it again came to, and
    /// `facts` matter only where that failed.
    pub fn classify_identity(&self, validation: Observed<FileIdentity>, facts: PresenceFacts) -> (result:
        Result<DeviceIdentityState, LabError>)
        ensures
            match result {
                Ok(state) => identity_state(self.class_identity, validation, facts) == Ok::<
                    DeviceIdentityState,
                    (LabErrorKind, Seq<char>),
                >(state),
                Err(error) => identity_state(self.class_identity, validation, facts) == Err::<
                    DeviceIdentityState,
                    (LabErrorKind, Seq<char>),
                >(error@),
            },
    {
        match validation {
            Ok(found) => {
                if found == self.class_identity {
                    Ok(DeviceIdentityState::Matching)
                } else {
                    Ok(DeviceIdentityState::IdentityChanged)
                }
            },
            Err(first) => match self.classify_inactive_identity(facts) {
                Ok(state) => Ok(state),
                Err(second) => {
                    let mut message = String::from_str("cannot prove recorded device identity: ");
                    message.append(first.message.as_str());
                    message.append("; state check failed: ");
                    message.append(second.message.as_str());
                    Err(failure_text(LabErrorKind::Other, message))
                },
            },
        }
    }
}

/// Law: a device counts as the recorded one only with the recorded identity, and as gone only if
/// no place shows it.
pub proof fn law_identity_states_are_earned(
    identity: FileIdentity,
    validation: Observed<FileIdentity>,
    facts: PresenceFacts,
    state: DeviceIdentityState,
)
    requires
        identity_state(identity, validation, facts) == Ok::<
            DeviceIdentityState,
            (LabErrorKind, Seq<char>),
        >(state),
    ensures
        state == DeviceIdentityState::Matching ==> validation == Ok::<FileIdentity, LabError>(
            identity,
        ),
        state == DeviceIdentityState::StoppedMatching ==> (facts.class_node matches Ok(entry)
            && entry.identity == identity),
        state == DeviceIdentityState::Absent ==> {
            &&& facts.node == Ok::<bool, LabError>(false)
            &&& facts.block == Ok::<bool, LabError>(false)
            &&& facts.class == Ok::<bool, LabError>(false)
        },
{
}

/// Law: that something is not there is an answer and no error; any other failure to look is one.
pub proof fn law_absence_is_an_answer(node: Observed<NodeFacts>)
    ensures
        presence_of(node) == Ok::<bool, (LabErrorKind, Seq<char>)>(true) <==> node is Ok,
        presence_of(node) == Ok::<bool, (LabErrorKind, Seq<char>)>(false) <==> (node matches Err(
            error,
        ) && error.kind is NotFound),
        presence_of(node) is Err <==> (node matches Err(error) && !(error.kind is NotFound)),
{
}

/// Law: what a recorded device has become, for everything that can be observed. If it validates it
/// is the recorded one exactly by its identity. If it does not, it is gone exactly where no place
/// shows it, stopped exactly where nothing but its class entry is left, with the recorded identity,
/// and another one exactly where that entry has another identity. Whenever a place could not be
/// looked at, or shows only part of the device, the identity stays open.
pub proof fn law_identity_states(
    identity: FileIdentity,
    validation: Observed<FileIdentity>,
    facts: PresenceFacts,
)
    ensures
        ({
            let state = identity_state(identity, validation, facts);
            let no = Ok::<bool, LabError>(false);
            let hidden = facts.node == no && facts.block == no;
            let entry = facts.class == Ok::<bool, LabError>(true) && (facts.class_node matches Ok(
                found,
            ) && found.kind is Directory);
            &&& (state matches Ok(DeviceIdentityState::Matching)) <==> validation == Ok::<
                FileIdentity,
                LabError,
            >(identity)
            &&& (state matches Ok(DeviceIdentityState::Absent)) <==> validation is Err && hidden
                && facts.class == no
            &&& (state matches Ok(DeviceIdentityState::StoppedMatching)) <==> validation is Err
                && hidden && entry && facts.class_node->Ok_0.identity == identity
            &&& (state matches Ok(DeviceIdentityState::IdentityChanged)) <==> (validation matches Ok(
                found,
            ) && found != identity) || (validation is Err && hidden && entry
                && facts.class_node->Ok_0.identity != identity)
            &&& state is Err <==> validation is Err && !(hidden && (facts.class == no || entry))
        }),
{
}

/// What a daemon has printed so far.
#[derive(Debug)]
pub enum DaemonOutput {
    Text(String),
    /// Not text, and whether it holds a line feed.
    Bytes(bool),
}

/// The device that a daemon has announced so far, or what is wrong with the announcement.
pub open spec fn announced(output: DaemonOutput) -> Result<
    Option<Seq<char>>,
    (LabErrorKind, Seq<char>),
> {
    match output {
        DaemonOutput::Bytes(ended) => if ended {
            Err((LabErrorKind::InvalidData, "readiness is not UTF-8"@))
        } else {
            Ok(None)
        },
        DaemonOutput::Text(text) => if find_in(text@, "\n"@) is None {
            Ok(None)
        } else if lines_of(text@).len() != 1 || !has_suffix(text@, "\n"@) {
            Err(
                (
                    LabErrorKind::InvalidData,
                    "daemon stdout is not one exact flushed readiness line"@,
                ),
            )
        } else {
            let line = text@.take(text@.len() - "\n"@.len());
            match DevicePath::refusal(line) {
                Some(message) => Err((LabErrorKind::InvalidData, message)),
                None => Ok(Some(line)),
            }
        },
    }
}

/// Law: a daemon has announced a device exactly if it has printed the path of one, `/dev/ublkb` and
/// the number in canonical decimal, and one line feed; as long as it has ended no line it is waited
/// for.
pub proof fn law_announcements_are_one_device_line(text: String)
    ensures
        (announced(DaemonOutput::Text(text)) matches Ok(Some(_))) <==> exists|number: u32|
            text@ == "/dev/ublkb"@ + #[trigger] decimal(number as int) + "\n"@,
        (announced(DaemonOutput::Text(text)) matches Ok(None)) <==> find_in(text@, "\n"@) is None,
        announced(DaemonOutput::Bytes(true)) is Err,
        announced(DaemonOutput::Bytes(false)) matches Ok(None),
{
    reveal_strlit("\n");
    assert("\n"@ =~= seq!['\n']);
    law_readiness_is_one_device_line(text@);
    let found = text@;
    if has_suffix(found, "\n"@) {
        let line = found.take(found.len() - 1);
        assert(found.last() == '\n') by {
            assert(found.skip(found.len() - 1)[0] == "\n"@[0]);
        }
        lemma_found_at_the_end(found);
        assert(found.drop_last() =~= line);
        if lines_of(found).len() == 1 {
            lemma_one_feed(found);
            assert(without_feeds(found) == line);
        }
    }
    if exists|number: u32| found == "/dev/ublkb"@ + #[trigger] decimal(number as int) + "\n"@ {
        let number = choose|number: u32|
            found == "/dev/ublkb"@ + #[trigger] decimal(number as int) + "\n"@;
        assert(found.skip(found.len() - 1) =~= "\n"@);
    }
}

/// A text that ends in a line feed holds one.
proof fn lemma_found_at_the_end(text: Seq<char>)
    requires
        has_suffix(text, "\n"@),
    ensures
        find_in(text, "\n"@) is Some,
{
    reveal_strlit("\n");
    lemma_found_from(text, 0);
}

/// Looking on from before the end finds what stands there.
proof fn lemma_found_from(text: Seq<char>, from: int)
    requires
        has_suffix(text, "\n"@),
        0 <= from < text.len(),
    ensures
        find_from(text, "\n"@, from) is Some,
    decreases text.len() - from,
{
    reveal_strlit("\n");
    if from == text.len() - 1 {
        assert(text.subrange(from, from + 1) =~= text.skip(text.len() - 1));
    } else if !occurs_at(text, "\n"@, from) {
        lemma_found_from(text, from + 1);
    }
}

/// One line that is ended has one line feed, at its end.
proof fn lemma_one_feed(text: Seq<char>)
    requires
        has_suffix(text, "\n"@),
        lines_of(text).len() == 1,
    ensures
        without_feeds(text) == text.drop_last(),
{
    reveal_strlit("\n");
    let at = position(text, '\n');
    let rest = text.skip(at + 1);
    lemma_position(text, '\n');
    assert(text.last() == '\n') by {
        assert(text.skip(text.len() - 1)[0] == "\n"@[0]);
    }
    let pieces = split_on(text, '\n');
    assert(pieces == seq![text.take(at)] + split_on(rest, '\n'));
    assert(split_on(rest, '\n').len() >= 1);
    lemma_position(rest, '\n');
    if position(rest, '\n') < rest.len() {
        let inner = position(rest, '\n');
        assert(split_on(rest, '\n') == seq![rest.take(inner)] + split_on(
            rest.skip(inner + 1),
            '\n',
        ));
        assert(split_on(rest.skip(inner + 1), '\n').len() >= 1);
        assert(pieces.len() >= 3);
        assert(false);
    }
    if rest.len() > 0 {
        assert(rest.last() == text.last());
        assert(rest[rest.len() - 1] != '\n');
    }
    let line = text.drop_last();
    assert(without_feeds(text) == without_feeds(line));
    if line.len() > 0 {
        assert(line.last() == text[line.len() - 1]);
        assert(text[line.len() - 1] != '\n');
    }
}

/// Reads the device that a daemon has announced: one line that is the path of a ublk device.
pub fn readiness_line(output: DaemonOutput) -> (result: Result<Option<DevicePath>, LabError>)
    ensures
        match result {
            Ok(None) => announced(output) == Ok::<
                Option<Seq<char>>,
                (LabErrorKind, Seq<char>),
            >(None),
            Ok(Some(device)) => {
                &&& announced(output) == Ok::<
                    Option<Seq<char>>,
                    (LabErrorKind, Seq<char>),
                >(Some(device.text()))
                &&& device.text() == "/dev/ublkb"@ + decimal(device.number() as int)
            },
            Err(error) => announced(output) == Err::<
                Option<Seq<char>>,
                (LabErrorKind, Seq<char>),
            >(error@),
        },
{
    let text = match output {
        DaemonOutput::Bytes(ended) => {
            if ended {
                return Err(failure(LabErrorKind::InvalidData, "readiness is not UTF-8"));
            }
            return Ok(None);
        },
        DaemonOutput::Text(text) => text,
    };
    let chars = chars_of(text.as_str());
    if !contains(chars.as_slice(), "\n") {
        return Ok(None);
    }
    let all = lines(chars.as_slice());
    assert(views(all@).len() == all@.len());
    let line = match strip_suffix(chars.as_slice(), "\n") {
        Some(line) => line,
        None => {
            return Err(
                failure(
                    LabErrorKind::InvalidData,
                    "daemon stdout is not one exact flushed readiness line",
                ),
            );
        },
    };
    if all.len() != 1 {
        return Err(
            failure(
                LabErrorKind::InvalidData,
                "daemon stdout is not one exact flushed readiness line",
            ),
        );
    }
    let line = string_of(line);
    match DevicePath::parse(line.as_str()) {
        Ok(device) => Ok(Some(device)),
        Err(message) => Err(failure(LabErrorKind::InvalidData, message)),
    }
}

/// What follows a look at a daemon that is starting.
#[derive(Debug)]
pub enum ReadyStep {
    /// The device is ready, with this identity.
    Ready(FileIdentity),
    /// Look again after a pause.
    Again,
    /// The daemon will not become ready.
    Fail(LabError),
}

/// The meaning of what follows a look at a daemon.
pub ghost enum ReadyView {
    Ready(FileIdentity),
    Again,
    Fail((LabErrorKind, Seq<char>)),
}

impl View for ReadyStep {
    type V = ReadyView;

    open spec fn view(&self) -> ReadyView {
        match *self {
            ReadyStep::Ready(identity) => ReadyView::Ready(identity),
            ReadyStep::Again => ReadyView::Again,
            ReadyStep::Fail(error) => ReadyView::Fail(error@),
        }
    }
}

/// What follows when nothing is left but to look at the clock.
pub open spec fn ready_or_late(expired: bool) -> ReadyView {
    if expired {
        ReadyView::Fail((LabErrorKind::TimedOut, "daemon readiness line timed out"@))
    } else {
        ReadyView::Again
    }
}

fn again_or_late(expired: bool) -> (step: ReadyStep)
    ensures
        step@ == ready_or_late(expired),
{
    if expired {
        ReadyStep::Fail(failure(LabErrorKind::TimedOut, "daemon readiness line timed out"))
    } else {
        ReadyStep::Again
    }
}

/// What follows when the daemon has not announced a device yet.
pub open spec fn after_silence_of(child: Observed<Option<Exit>>, expired: bool) -> ReadyView {
    match child {
        Err(error) => ReadyView::Fail(error@),
        Ok(Some(exit)) => ReadyView::Fail(
            (LabErrorKind::Other, "daemon exited before readiness: "@ + exit.text@),
        ),
        Ok(None) => ready_or_late(expired),
    }
}

/// Decides what follows when the daemon has not announced a device yet: `child` is how it ended,
/// if it did, and `expired` whether its time is up.
pub fn after_silence(child: Observed<Option<Exit>>, expired: bool) -> (step: ReadyStep)
    ensures
        step@ == after_silence_of(child, expired),
{
    match child {
        Err(error) => ReadyStep::Fail(error),
        Ok(Some(exit)) => {
            let mut message = String::from_str("daemon exited before readiness: ");
            message.append(exit.text.as_str());
            ReadyStep::Fail(failure_text(LabErrorKind::Other, message))
        },
        Ok(None) => again_or_late(expired),
    }
}

/// Reports that a daemon ended while its device was being validated.
pub fn early_exit(exit: &Exit, validation: &LabError) -> (error: LabError)
    ensures
        error@ == early_exit_of(*exit, *validation),
{
    let mut message = String::from_str("daemon exited during device readiness (");
    message.append(exit.text.as_str());
    message.append("): ");
    message.append(validation.message.as_str());
    failure_text(LabErrorKind::Other, message)
}

/// What is said of a daemon that ended while its device was being validated.
pub open spec fn early_exit_of(exit: Exit, validation: LabError) -> (LabErrorKind, Seq<char>) {
    (
        LabErrorKind::Other,
        "daemon exited during device readiness ("@ + exit.text@ + "): "@ + validation@.1,
    )
}

/// What follows when the device that the daemon announced was validated.
pub open spec fn after_validation_of(
    validation: Observed<FileIdentity>,
    late: bool,
    child: Observed<Option<Exit>>,
    expired: bool,
) -> ReadyView {
    match validation {
        Ok(identity) => ReadyView::Ready(identity),
        Err(error) => if late {
            ReadyView::Fail(
                (LabErrorKind::TimedOut, "device readiness timed out: "@ + error@.1),
            )
        } else {
            match child {
                Err(second) => ReadyView::Fail(second@),
                Ok(Some(exit)) => ReadyView::Fail(early_exit_of(exit, error)),
                Ok(None) => ready_or_late(expired),
            }
        },
    }
}

/// Decides what follows when the device that the daemon announced was validated. Whether its time
/// was up then is `late`; where it was not and validating failed, `child` is how the daemon ended,
/// if it did, and `expired` whether its time is up by now.
pub fn after_validation(
    validation: Observed<FileIdentity>,
    late: bool,
    child: Observed<Option<Exit>>,
    expired: bool,
) -> (step: ReadyStep)
    ensures
        step@ == after_validation_of(validation, late, child, expired),
{
    match validation {
        Ok(identity) => ReadyStep::Ready(identity),
        Err(error) => {
            if late {
                let mut message = String::from_str("device readiness timed out: ");
                message.append(error.message.as_str());
                return ReadyStep::Fail(failure_text(LabErrorKind::TimedOut, message));
            }
            match child {
                Err(second) => ReadyStep::Fail(second),
                Ok(Some(exit)) => ReadyStep::Fail(early_exit(&exit, &error)),
                Ok(None) => again_or_late(expired),
            }
        },
    }
}

/// Law: a daemon is ready exactly when the device that it announced validates, whenever that is. It
/// is waited for exactly as long as it runs and its time is not up; where it has ended, where that
/// cannot be told, or where its time is up, the wait has failed.
pub proof fn law_daemon_is_waited_for_while_it_runs(
    validation: Observed<FileIdentity>,
    late: bool,
    child: Observed<Option<Exit>>,
    expired: bool,
)
    ensures
        after_validation_of(validation, late, child, expired) is Ready <==> validation is Ok,
        validation matches Ok(identity) ==> after_validation_of(validation, late, child, expired)
            == ReadyView::Ready(identity),
        after_validation_of(validation, late, child, expired) is Again <==> validation is Err
            && !late && (child matches Ok(None)) && !expired,
        after_silence_of(child, expired) is Again <==> (child matches Ok(None)) && !expired,
        !(after_silence_of(child, expired) is Ready),
        (child matches Ok(None)) && expired ==> after_silence_of(child, expired)
            == ReadyView::Fail((LabErrorKind::TimedOut, "daemon readiness line timed out"@)),
{
}

/// Whether a device is gone from all places, looked at in order up to the first that shows it.
pub open spec fn absence_of(
    node: Observed<bool>,
    block: Observed<bool>,
    class: Observed<bool>,
) -> Result<bool, (LabErrorKind, Seq<char>)> {
    match node {
        Err(error) => Err(error@),
        Ok(true) => Ok(false),
        Ok(false) => match block {
            Err(error) => Err(error@),
            Ok(true) => Ok(false),
            Ok(false) => match class {
                Err(error) => Err(error@),
                Ok(there) => Ok(!there),
            },
        },
    }
}

/// Law: a device is gone exactly if no place shows it, and it is there as soon as one does whose
/// predecessors could be looked at.
pub proof fn law_absent_devices_show_nowhere(
    node: Observed<bool>,
    block: Observed<bool>,
    class: Observed<bool>,
)
    ensures
        ({
            let no = Ok::<bool, LabError>(false);
            let yes = Ok::<bool, LabError>(true);
            let absence = absence_of(node, block, class);
            &&& (absence matches Ok(true)) <==> node == no && block == no && class == no
            &&& (absence matches Ok(false)) <==> node == yes || (node == no && block == yes) || (node
                == no && block == no && class == yes)
        }),
{
}

/// Whether a device is gone from all places.
pub fn device_is_absent(node: Observed<bool>, block: Observed<bool>, class: Observed<bool>) -> (result:
    Observed<bool>)
    ensures
        match result {
            Ok(absent) => absence_of(node, block, class) == Ok::<bool, (LabErrorKind, Seq<char>)>(
                absent,
            ),
            Err(error) => absence_of(node, block, class) == Err::<bool, (LabErrorKind, Seq<char>)>(
                error@,
            ),
        },
{
    match node {
        Err(error) => {
            return Err(error);
        },
        Ok(there) => {
            if there {
                return Ok(false);
            }
        },
    }
    match block {
        Err(error) => {
            return Err(error);
        },
        Ok(there) => {
            if there {
                return Ok(false);
            }
        },
    }
    match class {
        Err(error) => Err(error),
        Ok(there) => Ok(!there),
    }
}

/// What follows a look for something that is to happen in time.
#[derive(Debug)]
pub enum PollStep {
    /// It happened.
    Done,
    /// Look again after a pause.
    Again,
    /// It will not happen.
    Fail(LabError),
}

/// Decides what follows a look for a device that is to disappear.
pub fn wait_for_disappearance(id: u32, absent: Observed<bool>, expired: bool) -> (step: PollStep)
    ensures
        match absent {
            Err(error) => step matches PollStep::Fail(found) && found@ == error@,
            Ok(true) => step is Done,
            Ok(false) => if expired {
                step matches PollStep::Fail(found) && found@ == (
                    LabErrorKind::TimedOut,
                    "recorded ublkb"@ + decimal(id as int) + " did not disappear"@,
                )
            } else {
                step is Again
            },
        },
{
    match absent {
        Err(error) => PollStep::Fail(error),
        Ok(gone) => {
            if gone {
                PollStep::Done
            } else if expired {
                let mut message = String::from_str("recorded ublkb");
                push_decimal(&mut message, id as u64);
                message.append(" did not disappear");
                PollStep::Fail(failure_text(LabErrorKind::TimedOut, message))
            } else {
                PollStep::Again
            }
        },
    }
}

/// Whether `expected` is one of the lines of `text`.
pub open spec fn has_line(text: Seq<char>, expected: Seq<char>) -> bool {
    exists|i: int| 0 <= i < lines_of(text).len() && #[trigger] lines_of(text)[i] == expected
}

fn contains_line(text: &str, expected: &str) -> (found: bool)
    ensures
        found == has_line(text@, expected@),
{
    let chars = chars_of(text);
    let all = lines(chars.as_slice());
    let wanted = chars_of(expected);
    let mut i: usize = 0;
    while i < all.len()
        invariant
            i <= all@.len(),
            views(all@) == lines_of(text@),
            wanted@ == expected@,
            forall|j: int| 0 <= j < i ==> #[trigger] lines_of(text@)[j] != expected@,
        decreases all@.len() - i,
    {
        assert(views(all@)[i as int] == all@[i as int]@);
        if equals(all[i].as_slice(), wanted.as_slice()) {
            assert(lines_of(text@)[i as int] == expected@);
            return true;
        }
        i = i + 1;
    }
    false
}

/// Decides what follows a look for the line that a daemon prints when it stops at a failpoint.
pub fn wait_for_handshake(text: &str, expected: &str, ended: Observed<bool>, expired: bool) -> (step:
    PollStep)
    ensures
        if has_line(text@, expected@) {
            step is Done
        } else {
            match ended {
                Err(error) => step matches PollStep::Fail(found) && found@ == error@,
                Ok(true) => step matches PollStep::Fail(found) && found@ == (
                    LabErrorKind::Other,
                    "daemon exited before failpoint handshake"@,
                ),
                Ok(false) => if expired {
                    step matches PollStep::Fail(found) && found@ == (
                        LabErrorKind::TimedOut,
                        "failpoint handshake timed out"@,
                    )
                } else {
                    step is Again
                },
            }
        },
{
    if contains_line(text, expected) {
        return PollStep::Done;
    }
    match ended {
        Err(error) => PollStep::Fail(error),
        Ok(gone) => {
            if gone {
                PollStep::Fail(
                    failure(LabErrorKind::Other, "daemon exited before failpoint handshake"),
                )
            } else if expired {
                PollStep::Fail(failure(LabErrorKind::TimedOut, "failpoint handshake timed out"))
            } else {
                PollStep::Again
            }
        },
    }
}

/// Whether a device that was killed still has to be deleted.
#[derive(Clone, Copy, Debug, PartialEq, Eq, Structural)]
pub enum RemoveAfterKillIdentity {
    Absent,
    Deletable,
}

/// What follows a look at a device whose daemon was killed.
#[derive(Debug)]
pub enum AfterKillStep {
    Settled(RemoveAfterKillIdentity),
    /// Look again after a pause.
    Again,
    /// What is there must not be touched.
    Refuse(LabError),
}

/// Decides what follows a look at a device whose daemon was killed. Only a refusal calls for
/// keeping everything.
pub fn wait_for_remove_after_kill_identity(state: Observed<DeviceIdentityState>, expired: bool) -> (step:
    AfterKillStep)
    ensures
        match state {
            Ok(DeviceIdentityState::Absent) => step == AfterKillStep::Settled(
                RemoveAfterKillIdentity::Absent,
            ),
            Ok(DeviceIdentityState::StoppedMatching) => step == AfterKillStep::Settled(
                RemoveAfterKillIdentity::Deletable,
            ),
            Ok(DeviceIdentityState::Matching) => if expired {
                step == AfterKillStep::Settled(RemoveAfterKillIdentity::Deletable)
            } else {
                step is Again
            },
            Ok(DeviceIdentityState::IdentityChanged) => step matches AfterKillStep::Refuse(error)
                && error@ == (
                LabErrorKind::Other,
                "recorded device identity changed after SIGKILL; refusing delete"@,
            ),
            Err(found) => if expired {
                step matches AfterKillStep::Refuse(error) && error@ == found@
            } else {
                step is Again
            },
        },
{
    match state {
        Ok(DeviceIdentityState::Absent) => AfterKillStep::Settled(RemoveAfterKillIdentity::Absent),
        Ok(DeviceIdentityState::StoppedMatching) => AfterKillStep::Settled(
            RemoveAfterKillIdentity::Deletable,
        ),
        Ok(DeviceIdentityState::Matching) => {
            if expired {
                AfterKillStep::Settled(RemoveAfterKillIdentity::Deletable)
            } else {
                AfterKillStep::Again
            }
        },
        Ok(DeviceIdentityState::IdentityChanged) => AfterKillStep::Refuse(
            failure(
                LabErrorKind::Other,
                "recorded device identity changed after SIGKILL; refusing delete",
            ),
        ),
        Err(error) => {
            if expired {
                AfterKillStep::Refuse(error)
            } else {
                AfterKillStep::Again
            }
        },
    }
}

/// Why a device may not be used or deleted, if it may not.
pub open spec fn use_refusal(
    state: Observed<DeviceIdentityState>,
    operation: Seq<char>,
    allow_stopped: bool,
) -> Option<(LabErrorKind, Seq<char>)> {
    match state {
        Err(error) => Some(error@),
        Ok(DeviceIdentityState::Matching) => None,
        Ok(DeviceIdentityState::IdentityChanged) => Some(
            (LabErrorKind::Other, "recorded device identity changed "@ + operation),
        ),
        Ok(found) => if found == DeviceIdentityState::StoppedMatching && allow_stopped {
            None
        } else {
            Some((LabErrorKind::Other, "recorded device is not active "@ + operation))
        },
    }
}

/// Law: a device may be used exactly if it is the recorded one, and a stopped one only where that is
/// allowed.
pub proof fn law_only_the_recorded_device_is_used(
    state: Observed<DeviceIdentityState>,
    operation: Seq<char>,
    allow_stopped: bool,
)
    ensures
        use_refusal(state, operation, allow_stopped) is None <==> {
            ||| state matches Ok(DeviceIdentityState::Matching)
            ||| (state matches Ok(DeviceIdentityState::StoppedMatching)) && allow_stopped
        },
{
}

/// Demands that a device is the recorded one. The second value tells whether everything must be
/// kept because the identity is open or has changed.
pub fn require_device_identity(
    state: Observed<DeviceIdentityState>,
    operation: &str,
    allow_stopped: bool,
) -> (outcome: (Result<(), LabError>, bool))
    ensures
        match outcome.0 {
            Ok(()) => use_refusal(state, operation@, allow_stopped) is None,
            Err(error) => use_refusal(state, operation@, allow_stopped) == Some(error@),
        },
        outcome.1 == (state is Err || state == Ok::<DeviceIdentityState, LabError>(
            DeviceIdentityState::IdentityChanged,
        )),
{
    match state {
        Err(error) => (Err(error), true),
        Ok(DeviceIdentityState::Matching) => (Ok(()), false),
        Ok(DeviceIdentityState::IdentityChanged) => {
            let mut message = String::from_str("recorded device identity changed ");
            message.append(operation);
            (Err(failure_text(LabErrorKind::Other, message)), true)
        },
        Ok(found) => {
            if found == DeviceIdentityState::StoppedMatching && allow_stopped {
                return (Ok(()), false);
            }
            let mut message = String::from_str("recorded device is not active ");
            message.append(operation);
            (Err(failure_text(LabErrorKind::Other, message)), false)
        },
    }
}

/// Law: a line is looked for among all lines, from the first to the last, and as a whole.
pub proof fn law_every_line_is_looked_at(line: Seq<char>, rest: Seq<char>, expected: Seq<char>)
    requires
        forall|i: int| 0 <= i < line.len() ==> #[trigger] line[i] != '\n',
        line.len() == 0 || line.last() != '\r',
    ensures
        has_line(line + seq!['\n'] + rest, expected) <==> line == expected || has_line(
            rest,
            expected,
        ),
        !has_line(Seq::empty(), expected),
{
    law_lines_one_by_one(line, rest);
    let text = line + seq!['\n'] + rest;
    let (all, others) = (lines_of(text), lines_of(rest));
    assert(all == seq![line] + others);
    assert(all[0] == line);
    if has_line(rest, expected) {
        let i = choose|i: int| 0 <= i < others.len() && #[trigger] others[i] == expected;
        assert(all[i + 1] == expected);
    }
    if has_line(text, expected) {
        let i = choose|i: int| 0 <= i < all.len() && #[trigger] all[i] == expected;
        if i > 0 {
            assert(others[i - 1] == expected);
        }
    }
}

} // verus!
