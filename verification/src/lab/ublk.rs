//! Device names, geometry, owned directories and fio command lines.

use crate::lab::command::CommandLine;
#[allow(unused_imports)]
use crate::lab::command::CommandView;
use crate::lab::error::{failure, failure_text, LabError, LabErrorKind};
use crate::lab::node::{FileIdentity, NodeFacts, NodeKind, Observed};
#[allow(unused_imports)]
use crate::mounts::is_owned_name;
use crate::paths::name_of;
#[allow(unused_imports)]
use crate::paths::file_name;
use crate::text::{
    canonical, chars_of, equals, find_char, parse_digits, push_base, push_decimal,
    strip_prefix, strip_suffix, trim,
};
#[allow(unused_imports)]
use crate::text::{
    base_digits, decimal, digits_value, has_prefix, has_suffix, is_canonical, is_digit,
    lemma_position_behind, law_canonical_is_decimal, law_decimal_denotes_its_number, position,
    trimmed,
};
use vstd::prelude::*;
use vstd::slice::slice_subrange;

verus! {

pub const BLOCK_BYTES: u64 = 4096;

pub const VOLUME_BLOCKS: u64 = 64;

pub const RECORD_CAPACITY: u64 = 32;

pub const OWNED_PREFIX: &'static str = "my-block-storage-ublk.";

pub const OWNED_MARKER: &'static str = ".owned-by-block-storage-lab";

/// The number of a ublk device.
#[derive(Clone, Copy, Debug, PartialEq, Eq, Structural)]
pub struct DeviceId(u32);

impl DeviceId {
    /// The number.
    pub closed spec fn value(self) -> u32 {
        self.0
    }

    /// The number.
    pub fn get(self) -> (value: u32)
        ensures
            value == self.value(),
    {
        self.0
    }

    /// How the number is written.
    pub fn text(self) -> (text: String)
        ensures
            text@ == decimal(self.value() as int),
    {
        let mut text = String::new();
        push_decimal(&mut text, self.0 as u64);
        assert(text@ =~= decimal(self.value() as int));
        text
    }

    /// Why `text` is not a device number, if it is not.
    pub open spec fn refusal(text: Seq<char>) -> Option<Seq<char>> {
        if !is_canonical(text) {
            Some("device ID must be canonical unsigned decimal"@)
        } else if digits_value(text) > u32::MAX {
            Some("device ID is out of range"@)
        } else {
            None
        }
    }

    fn parse_chars(chars: &[char]) -> (result: Result<DeviceId, &'static str>)
        ensures
            match result {
                Ok(id) => {
                    &&& DeviceId::refusal(chars@) is None
                    &&& id.value() == digits_value(chars@)
                    &&& decimal(id.value() as int) == chars@
                },
                Err(message) => DeviceId::refusal(chars@) == Some(message@),
            },
    {
        if !canonical(chars) {
            return Err("device ID must be canonical unsigned decimal");
        }
        proof {
            law_canonical_is_decimal(chars@);
        }
        match parse_digits(chars, u32::MAX as u64) {
            Some(value) => Ok(DeviceId(value as u32)),
            None => Err("device ID is out of range"),
        }
    }

    /// The device number that `text` is, in canonical decimal.
    pub fn parse(text: &str) -> (result: Result<DeviceId, &'static str>)
        ensures
            match result {
                Ok(id) => DeviceId::refusal(text@) is None && decimal(id.value() as int) == text@,
                Err(message) => DeviceId::refusal(text@) == Some(message@),
            },
    {
        let chars = chars_of(text);
        DeviceId::parse_chars(chars.as_slice())
    }
}

impl std::str::FromStr for DeviceId {
    type Err = &'static str;

    fn from_str(value: &str) -> (result: Result<DeviceId, &'static str>)
        ensures
            match result {
                Ok(id) => DeviceId::refusal(value@) is None && decimal(id.value() as int) == value@,
                Err(message) => DeviceId::refusal(value@) == Some(message@),
            },
    {
        DeviceId::parse(value)
    }
}

/// The path of a ublk block device.
#[derive(Clone, Debug, PartialEq, Eq)]
pub struct DevicePath {
    id: DeviceId,
    path: String,
}

impl DevicePath {
    /// The device's number.
    pub closed spec fn number(self) -> u32 {
        self.id.value()
    }

    /// The device's path.
    pub closed spec fn text(self) -> Seq<char> {
        self.path@
    }

    /// Why `text` is not the path of a ublk block device, if it is not.
    pub open spec fn refusal(text: Seq<char>) -> Option<Seq<char>> {
        if !has_prefix(text, "/dev/ublkb"@) {
            Some("device path must be exactly /dev/ublkbN"@)
        } else {
            DeviceId::refusal(text.skip("/dev/ublkb"@.len() as int))
        }
    }

    /// The device's number.
    pub fn id(&self) -> (id: DeviceId)
        ensures
            id.value() == self.number(),
    {
        self.id
    }

    /// The device's path.
    pub fn as_path(&self) -> (path: &str)
        ensures
            path@ == self.text(),
    {
        self.path.as_str()
    }

    /// The device whose path `text` is: `/dev/ublkb` and the number in canonical decimal.
    pub fn parse(text: &str) -> (result: Result<DevicePath, &'static str>)
        ensures
            match result {
                Ok(device) => {
                    &&& DevicePath::refusal(text@) is None
                    &&& device.text() == text@
                    &&& device.text() == "/dev/ublkb"@ + decimal(device.number() as int)
                },
                Err(message) => DevicePath::refusal(text@) == Some(message@),
            },
    {
        let chars = chars_of(text);
        let suffix = match strip_prefix(chars.as_slice(), "/dev/ublkb") {
            Some(suffix) => suffix,
            None => {
                return Err("device path must be exactly /dev/ublkbN");
            },
        };
        match DeviceId::parse_chars(suffix) {
            Ok(id) => {
                let device = DevicePath { id, path: String::from_str(text) };
                assert(device.text() =~= "/dev/ublkb"@ + suffix@);
                Ok(device)
            },
            Err(message) => Err(message),
        }
    }
}

impl std::str::FromStr for DevicePath {
    type Err = &'static str;

    fn from_str(value: &str) -> (result: Result<DevicePath, &'static str>)
        ensures
            match result {
                Ok(device) => {
                    &&& DevicePath::refusal(value@) is None
                    &&& device.text() == value@
                    &&& device.text() == "/dev/ublkb"@ + decimal(device.number() as int)
                },
                Err(message) => DevicePath::refusal(value@) == Some(message@),
            },
    {
        DevicePath::parse(value)
    }
}

/// Law: the path of every device number is read back as that number.
pub proof fn law_device_path_round_trip(number: u32)
    ensures
        DevicePath::refusal("/dev/ublkb"@ + decimal(number as int)) is None,
        digits_value(("/dev/ublkb"@ + decimal(number as int)).skip("/dev/ublkb"@.len() as int))
            == number,
{
    let prefix = "/dev/ublkb"@;
    let text = prefix + decimal(number as int);
    law_decimal_denotes_its_number(number as int);
    assert(text.take(prefix.len() as int) =~= prefix);
    assert(text.skip(prefix.len() as int) =~= decimal(number as int));
}

/// The shape of the volume that the lab serves.
#[derive(Clone, Copy, Debug, PartialEq, Eq, Structural)]
pub struct Geometry {
    pub block_bytes: u64,
    pub volume_blocks: u64,
    pub record_capacity: u64,
    pub log_start_blocks: u64,
    pub backing_blocks: u64,
}

impl Geometry {
    /// A volume of sixty-four blocks whose log holds thirty-two records.
    pub fn expected() -> (geometry: Geometry)
        ensures
            geometry == (Geometry {
                block_bytes: 4096,
                volume_blocks: 64,
                record_capacity: 32,
                log_start_blocks: 6,
                backing_blocks: 70,
            }),
    {
        let physical_blocks: u64 = (VOLUME_BLOCKS + 1023) / 1024;
        let checksum_blocks: u64 = (VOLUME_BLOCKS + 511) / 512;
        let log_start_blocks: u64 = 2 + 2 * physical_blocks + 2 * checksum_blocks;
        Geometry {
            block_bytes: BLOCK_BYTES,
            volume_blocks: VOLUME_BLOCKS,
            record_capacity: RECORD_CAPACITY,
            log_start_blocks,
            backing_blocks: log_start_blocks + 2 * RECORD_CAPACITY,
        }
    }

    pub fn volume_bytes(self) -> (bytes: u64)
        requires
            self.block_bytes * self.volume_blocks <= u64::MAX,
        ensures
            bytes == self.block_bytes * self.volume_blocks,
    {
        self.block_bytes * self.volume_blocks
    }

    pub fn backing_bytes(self) -> (bytes: u64)
        requires
            self.block_bytes * self.backing_blocks <= u64::MAX,
        ensures
            bytes == self.block_bytes * self.backing_blocks,
    {
        self.block_bytes * self.backing_blocks
    }

    pub fn sectors(self) -> (sectors: u64)
        requires
            self.block_bytes * self.volume_blocks <= u64::MAX,
        ensures
            sectors == self.block_bytes * self.volume_blocks / 512,
    {
        self.volume_bytes() / 512
    }
}

/// A temporary directory that the lab made and may remove.
#[derive(Debug)]
pub struct OwnedTempDir {
    path: String,
    identity: FileIdentity,
    cleaned: bool,
}

/// What has been observed of an owned directory and its marker.
#[derive(Debug)]
pub struct OwnedDirFacts {
    /// Whether the path is its own canonical form.
    pub canonical: Observed<bool>,
    pub directory: Observed<NodeFacts>,
    pub marker: Observed<NodeFacts>,
    pub marker_text: Observed<String>,
    pub effective_uid: u32,
}

/// Why an owned directory is not what it was made as, if it is not.
pub open spec fn owned_dir_refusal(
    path: Seq<char>,
    expected: FileIdentity,
    facts: OwnedDirFacts,
) -> Option<(LabErrorKind, Seq<char>)> {
    if !has_prefix(file_name(path), OWNED_PREFIX@) {
        Some((LabErrorKind::Other, "temporary directory path is not canonical"@))
    } else {
        match (facts.canonical, facts.directory) {
            (Err(error), _) => Some(error@),
            (Ok(false), _) => Some(
                (LabErrorKind::Other, "temporary directory path is not canonical"@),
            ),
            (_, Err(error)) => Some(error@),
            (_, Ok(directory)) => if directory.kind != NodeKind::Directory || directory.uid
                != facts.effective_uid || directory.identity != expected {
                Some((LabErrorKind::Other, "temporary directory identity changed"@))
            } else {
                match facts.marker {
                    Err(error) => Some(error@),
                    Ok(marker) => if marker.kind != NodeKind::File || marker.uid
                        != facts.effective_uid {
                        Some((LabErrorKind::Other, "temporary directory marker is invalid"@))
                    } else {
                        match facts.marker_text {
                            Err(error) => Some(error@),
                            Ok(text) => if trimmed(text@) != expected.text_of() {
                                Some(
                                    (
                                        LabErrorKind::Other,
                                        "temporary directory marker is invalid"@,
                                    ),
                                )
                            } else {
                                None
                            },
                        }
                    },
                }
            },
        }
    }
}

/// The name of an owned directory.
pub open spec fn owned_dir_name(pid: int, nonce: int) -> Seq<char> {
    OWNED_PREFIX@ + decimal(pid) + "."@ + decimal(nonce)
}

/// Names an owned directory by the process and a number that grows.
pub fn make_owned_dir_name(pid: u32, nonce: u64) -> (name: String)
    ensures
        name@ == owned_dir_name(pid as int, nonce as int),
{
    let mut name = String::from_str(OWNED_PREFIX);
    push_decimal(&mut name, pid as u64);
    name.append(".");
    push_decimal(&mut name, nonce);
    name
}

/// Law: the names that the lab gives its directories are the ones that it recognises.
pub proof fn law_made_names_are_owned(pid: u32, nonce: u64)
    ensures
        is_owned_name(owned_dir_name(pid as int, nonce as int)),
{
    let prefix = OWNED_PREFIX@;
    let head = decimal(pid as int);
    let tail = decimal(nonce as int);
    let name = owned_dir_name(pid as int, nonce as int);
    let suffix = head + seq!['.'] + tail;
    reveal_strlit(".");
    assert("."@ =~= seq!['.']);
    law_decimal_denotes_its_number(pid as int);
    law_decimal_denotes_its_number(nonce as int);
    assert(name.take(prefix.len() as int) =~= prefix);
    assert(name.skip(prefix.len() as int) =~= suffix);
    assert forall|i: int| 0 <= i < head.len() implies #[trigger] head[i] != '.' by {
        assert(is_digit(head[i]));
    }
    lemma_position_behind(head, '.', tail);
    assert(suffix.take(head.len() as int) =~= head);
    assert(suffix.skip(head.len() as int + 1) =~= tail);
}

/// How many names are tried for a directory.
pub const CREATE_ATTEMPTS: u32 = 100;

/// What follows the attempt to make a directory.
#[derive(Debug)]
pub enum CreateStep {
    /// It was made: mark it as owned.
    Initialize,
    /// Its name is taken: try the next one.
    Again,
    /// No directory can be made.
    Fail(LabError),
}

/// Decides what follows the attempt to make a directory; `attempts` counts this one too.
pub fn after_creating(attempts: u32, created: Observed<()>) -> (step: CreateStep)
    ensures
        match created {
            Ok(()) => step is Initialize,
            Err(error) => if error.kind != LabErrorKind::AlreadyExists {
                step matches CreateStep::Fail(found) && found@ == error@
            } else if attempts < CREATE_ATTEMPTS {
                step is Again
            } else {
                step matches CreateStep::Fail(found) && found@ == (
                    LabErrorKind::AlreadyExists,
                    "could not allocate a unique temporary directory"@,
                )
            },
        },
{
    match created {
        Ok(()) => CreateStep::Initialize,
        Err(error) => {
            if error.kind != LabErrorKind::AlreadyExists {
                CreateStep::Fail(error)
            } else if attempts < CREATE_ATTEMPTS {
                CreateStep::Again
            } else {
                CreateStep::Fail(
                    failure(
                        LabErrorKind::AlreadyExists,
                        "could not allocate a unique temporary directory",
                    ),
                )
            }
        },
    }
}

/// Reports that a directory could not be marked as owned, and where it could not be removed
/// again, that too.
pub fn initialization_failure(error: LabError, removed: Observed<()>) -> (result: LabError)
    ensures
        match removed {
            Ok(()) => result@ == error@,
            Err(second) => result@ == (
                LabErrorKind::Other,
                "initializing temporary directory failed: "@ + error@.1 + "; rollback failed: "@
                    + second@.1,
            ),
        },
{
    match removed {
        Ok(()) => error,
        Err(second) => {
            let mut message = String::from_str("initializing temporary directory failed: ");
            message.append(error.message.as_str());
            message.append("; rollback failed: ");
            message.append(second.message.as_str());
            failure_text(LabErrorKind::Other, message)
        },
    }
}

/// Why an entry of an owned directory may not be removed, if it may not.
pub open spec fn entry_refused(
    entry: NodeFacts,
    owner: FileIdentity,
    effective_uid: u32,
) -> bool {
    entry.kind != NodeKind::File || entry.uid != effective_uid || entry.identity.device
        != owner.device
}

impl OwnedTempDir {
    /// Where the directory is.
    pub closed spec fn location(self) -> Seq<char> {
        self.path@
    }

    /// What the directory was made as.
    pub closed spec fn made_as(self) -> FileIdentity {
        self.identity
    }

    /// Whether the directory is no longer to be removed.
    pub closed spec fn is_cleaned(self) -> bool {
        self.cleaned
    }

    /// Takes charge of a directory that was just made.
    pub fn adopt(path: String, identity: FileIdentity) -> (owned: OwnedTempDir)
        ensures
            owned.location() == path@,
            owned.made_as() == identity,
            !owned.is_cleaned(),
    {
        OwnedTempDir { path, identity, cleaned: false }
    }

    pub fn path(&self) -> (path: &str)
        ensures
            path@ == self.location(),
    {
        self.path.as_str()
    }

    pub fn identity(&self) -> (identity: FileIdentity)
        ensures
            identity == self.made_as(),
    {
        self.identity
    }

    /// Whether the directory needs no cleanup any more.
    pub fn cleaned(&self) -> (cleaned: bool)
        ensures
            cleaned == self.is_cleaned(),
    {
        self.cleaned
    }

    /// Whether the directory is still the one that was made.
    pub fn validate(&self, facts: OwnedDirFacts) -> (result: Result<(), LabError>)
        ensures
            match result {
                Ok(()) => owned_dir_refusal(self.location(), self.made_as(), facts) is None,
                Err(error) => owned_dir_refusal(self.location(), self.made_as(), facts) == Some(
                    error@,
                ),
            },
    {
        let name = name_of(self.path.as_str());
        if strip_prefix(name.as_slice(), OWNED_PREFIX).is_none() {
            return Err(failure(LabErrorKind::Other, "temporary directory path is not canonical"));
        }
        match facts.canonical {
            Ok(true) => {},
            Ok(false) => {
                return Err(
                    failure(LabErrorKind::Other, "temporary directory path is not canonical"),
                );
            },
            Err(error) => {
                return Err(error);
            },
        }
        let directory = match facts.directory {
            Ok(directory) => directory,
            Err(error) => {
                return Err(error);
            },
        };
        if directory.kind != NodeKind::Directory || directory.uid != facts.effective_uid
            || directory.identity != self.identity {
            return Err(failure(LabErrorKind::Other, "temporary directory identity changed"));
        }
        let marker = match facts.marker {
            Ok(marker) => marker,
            Err(error) => {
                return Err(error);
            },
        };
        if marker.kind != NodeKind::File || marker.uid != facts.effective_uid {
            return Err(failure(LabErrorKind::Other, "temporary directory marker is invalid"));
        }
        let text = match facts.marker_text {
            Ok(text) => text,
            Err(error) => {
                return Err(error);
            },
        };
        let found = chars_of(text.as_str());
        let expected = chars_of(self.identity.text().as_str());
        if !equals(trim(found.as_slice()), expected.as_slice()) {
            return Err(failure(LabErrorKind::Other, "temporary directory marker is invalid"));
        }
        Ok(())
    }

    /// Keeps the directory: it is not removed any more.
    pub fn preserve(&mut self)
        ensures
            final(self).is_cleaned(),
            final(self).location() == old(self).location(),
            final(self).made_as() == old(self).made_as(),
    {
        self.cleaned = true;
    }

    /// Whether an entry may be removed with the directory: a regular file of the same owner and
    /// file system.
    pub fn check_entry(&self, path: &str, entry: NodeFacts, effective_uid: u32) -> (result: Result<
        (),
        LabError,
    >)
        ensures
            match result {
                Ok(()) => !entry_refused(entry, self.made_as(), effective_uid),
                Err(error) => entry_refused(entry, self.made_as(), effective_uid) && error@ == (
                    LabErrorKind::Other,
                    "refusing to remove unexpected temporary resource "@ + path@,
                ),
            },
    {
        if entry.kind != NodeKind::File || entry.uid != effective_uid || entry.identity.device
            != self.identity.device {
            let mut message = String::from_str("refusing to remove unexpected temporary resource ");
            message.append(path);
            return Err(failure_text(LabErrorKind::Other, message));
        }
        Ok(())
    }
}

/// What the removal of an owned directory waits for.
#[derive(Debug, Clone, Copy, PartialEq, Eq, Structural)]
pub enum CleanStep {
    /// What the directory and its marker are.
    Validate,
    /// The next entry of the directory.
    Next,
    /// What that entry is.
    Inspect,
    /// That entry has to be removed.
    RemoveEntry,
    /// The marker has to be removed.
    RemoveMarker,
    /// The directory has to be removed.
    RemoveDirectory,
    /// Nothing more has to be done.
    Done,
}

/// An entry of a directory: its name in there, and how it is shown.
#[derive(Debug)]
pub struct OwnedEntry {
    pub name: String,
    pub shown: String,
}

/// What came of a step of the removal.
#[derive(Debug)]
pub enum CleanEvent {
    Directory(OwnedDirFacts),
    Entry(Observed<Option<OwnedEntry>>),
    Facts { entry: Observed<NodeFacts>, effective_uid: u32 },
    Removed(Observed<()>),
}

/// Where the removal of the directory at `path`, made as `identity`, goes from `step`, with the
/// entry `shown` at hand. What does not belong to the step changes nothing.
pub open spec fn clean_next(
    path: Seq<char>,
    identity: FileIdentity,
    step: CleanStep,
    shown: Seq<char>,
    event: CleanEvent,
) -> Result<(CleanStep, Seq<char>), (LabErrorKind, Seq<char>)> {
    match (step, event) {
        (CleanStep::Validate, CleanEvent::Directory(facts)) => match owned_dir_refusal(
            path,
            identity,
            facts,
        ) {
            None => Ok((CleanStep::Next, shown)),
            Some(error) => Err(error),
        },
        (CleanStep::Next, CleanEvent::Entry(found)) => match found {
            Err(error) => Err(error@),
            Ok(None) => Ok((CleanStep::RemoveMarker, shown)),
            Ok(Some(entry)) => if entry.name@ == OWNED_MARKER@ {
                Ok((CleanStep::Next, shown))
            } else {
                Ok((CleanStep::Inspect, entry.shown@))
            },
        },
        (CleanStep::Inspect, CleanEvent::Facts { entry, effective_uid }) => match entry {
            Err(error) => Err(error@),
            Ok(facts) => if entry_refused(facts, identity, effective_uid) {
                Err(
                    (
                        LabErrorKind::Other,
                        "refusing to remove unexpected temporary resource "@ + shown,
                    ),
                )
            } else {
                Ok((CleanStep::RemoveEntry, shown))
            },
        },
        (CleanStep::RemoveEntry, CleanEvent::Removed(removed)) => match removed {
            Err(error) => Err(error@),
            Ok(()) => Ok((CleanStep::Next, shown)),
        },
        (CleanStep::RemoveMarker, CleanEvent::Removed(removed)) => match removed {
            Err(error) => Err(error@),
            Ok(()) => Ok((CleanStep::RemoveDirectory, shown)),
        },
        (CleanStep::RemoveDirectory, CleanEvent::Removed(removed)) => match removed {
            Err(error) => Err(error@),
            Ok(()) => Ok((CleanStep::Done, shown)),
        },
        _ => Ok((step, shown)),
    }
}

/// Where the removal stands after `events`.
pub open spec fn clean_after(
    path: Seq<char>,
    identity: FileIdentity,
    events: Seq<CleanEvent>,
) -> Result<(CleanStep, Seq<char>), (LabErrorKind, Seq<char>)>
    decreases events.len(),
{
    if events.len() == 0 {
        Ok((CleanStep::Validate, Seq::empty()))
    } else {
        match clean_after(path, identity, events.drop_last()) {
            Ok((step, shown)) => clean_next(path, identity, step, shown, events.last()),
            Err(error) => Err(error),
        }
    }
}

/// Law: nothing is removed before the directory was found to be the one that was made, no entry
/// before it was found to be a regular file of the lab's own, the marker only when no other entry
/// is left, and the directory only after the marker.
pub proof fn law_nothing_is_removed_unchecked(
    path: Seq<char>,
    identity: FileIdentity,
    events: Seq<CleanEvent>,
)
    ensures
        clean_after(path, identity, events) matches Ok((step, shown)) ==> {
            &&& !(step is Validate) ==> exists|i: int|
                0 <= i < events.len() && (#[trigger] events[i] matches CleanEvent::Directory(facts)
                    && owned_dir_refusal(path, identity, facts) is None)
            &&& step is RemoveEntry ==> exists|i: int|
                0 <= i < events.len() && (#[trigger] events[i] matches CleanEvent::Facts {
                    entry: Ok(facts),
                    effective_uid,
                } && !entry_refused(facts, identity, effective_uid))
            &&& step is RemoveMarker || step is RemoveDirectory || step is Done ==> exists|i: int|
                0 <= i < events.len() && (#[trigger] events[i] matches CleanEvent::Entry(Ok(None)))
            &&& step is RemoveDirectory || step is Done ==> exists|i: int|
                0 <= i < events.len() && (#[trigger] events[i] matches CleanEvent::Removed(Ok(())))
        },
    decreases events.len(),
{
    if events.len() > 0 {
        let before = events.drop_last();
        law_nothing_is_removed_unchecked(path, identity, before);
        assert(events.last() == events[events.len() - 1]);
        assert forall|i: int| 0 <= i < before.len() implies before[i] == #[trigger] events[i] by {}
        if let Ok((step, shown)) = clean_after(path, identity, before) {
            if !(step is Validate) {
                let i = choose|i: int|
                    0 <= i < before.len() && (#[trigger] before[i] matches CleanEvent::Directory(
                        facts,
                    ) && owned_dir_refusal(path, identity, facts) is None);
                assert(events[i] == before[i]);
            }
            if step is RemoveEntry {
                let i = choose|i: int|
                    0 <= i < before.len() && (#[trigger] before[i] matches CleanEvent::Facts {
                        entry: Ok(facts),
                        effective_uid,
                    } && !entry_refused(facts, identity, effective_uid));
                assert(events[i] == before[i]);
            }
            if step is RemoveMarker || step is RemoveDirectory || step is Done {
                let i = choose|i: int|
                    0 <= i < before.len() && (#[trigger] before[i] matches CleanEvent::Entry(
                        Ok(None),
                    ));
                assert(events[i] == before[i]);
            }
            if step is RemoveDirectory || step is Done {
                let i = choose|i: int|
                    0 <= i < before.len() && (#[trigger] before[i] matches CleanEvent::Removed(
                        Ok(()),
                    ));
                assert(events[i] == before[i]);
            }
        }
    }
}

/// Law: a removal that is done asks for nothing more, whatever comes.
pub proof fn law_done_stays_done(
    path: Seq<char>,
    identity: FileIdentity,
    shown: Seq<char>,
    event: CleanEvent,
)
    ensures
        clean_next(path, identity, CleanStep::Done, shown, event) == Ok::<
            _,
            (LabErrorKind, Seq<char>),
        >((CleanStep::Done, shown)),
{
}

/// The removal of an owned directory.
#[derive(Debug)]
pub struct Cleanup {
    step: CleanStep,
    shown: String,
}

impl Cleanup {
    /// What the removal waits for.
    pub closed spec fn awaited(self) -> CleanStep {
        self.step
    }

    /// How the entry at hand is shown.
    pub closed spec fn entry_shown(self) -> Seq<char> {
        self.shown@
    }

    /// Begins to remove a directory, unless that is no longer to be done.
    pub fn begin(owned: &OwnedTempDir) -> (cleanup: Cleanup)
        ensures
            cleanup.awaited() == (if owned.is_cleaned() {
                CleanStep::Done
            } else {
                CleanStep::Validate
            }),
            cleanup.entry_shown() == Seq::<char>::empty(),
    {
        let step = if owned.cleaned() {
            CleanStep::Done
        } else {
            CleanStep::Validate
        };
        let shown = String::from_str("");
        proof {
            reveal_strlit("");
            assert(shown@ =~= Seq::<char>::empty());
        }
        Cleanup { step, shown }
    }

    pub fn awaits(&self) -> (step: CleanStep)
        ensures
            step == self.awaited(),
    {
        self.step
    }

    /// Goes on with what came of the awaited step. An error ends the removal, and the directory
    /// is then still to be removed; once all is gone it is not.
    pub fn advance(&mut self, owned: &mut OwnedTempDir, event: CleanEvent) -> (result: Result<
        (),
        LabError,
    >)
        ensures
            ({
                let next = clean_next(
                    old(owned).location(),
                    old(owned).made_as(),
                    old(self).awaited(),
                    old(self).entry_shown(),
                    event,
                );
                match result {
                    Ok(()) => next == Ok::<_, (LabErrorKind, Seq<char>)>(
                        (final(self).awaited(), final(self).entry_shown()),
                    ),
                    Err(error) => next == Err::<(CleanStep, Seq<char>), _>(error@)
                        && final(self).awaited() is Done,
                }
            }),
            final(owned).location() == old(owned).location(),
            final(owned).made_as() == old(owned).made_as(),
            final(owned).is_cleaned() == (old(owned).is_cleaned() || result is Ok && !(old(
                self,
            ).awaited() is Done) && final(self).awaited() is Done),
    {
        let step = self.step;
        self.step = CleanStep::Done;
        match (step, event) {
            (CleanStep::Validate, CleanEvent::Directory(facts)) => {
                owned.validate(facts)?;
                self.step = CleanStep::Next;
            },
            (CleanStep::Next, CleanEvent::Entry(found)) => {
                match found? {
                    None => {
                        self.step = CleanStep::RemoveMarker;
                    },
                    Some(entry) => {
                        let name = chars_of(entry.name.as_str());
                        let marker = chars_of(OWNED_MARKER);
                        if equals(name.as_slice(), marker.as_slice()) {
                            self.step = CleanStep::Next;
                        } else {
                            self.shown = entry.shown;
                            self.step = CleanStep::Inspect;
                        }
                    },
                }
            },
            (CleanStep::Inspect, CleanEvent::Facts { entry, effective_uid }) => {
                owned.check_entry(self.shown.as_str(), entry?, effective_uid)?;
                self.step = CleanStep::RemoveEntry;
            },
            (CleanStep::RemoveEntry, CleanEvent::Removed(removed)) => {
                removed?;
                self.step = CleanStep::Next;
            },
            (CleanStep::RemoveMarker, CleanEvent::Removed(removed)) => {
                removed?;
                self.step = CleanStep::RemoveDirectory;
            },
            (CleanStep::RemoveDirectory, CleanEvent::Removed(removed)) => {
                removed?;
                owned.preserve();
            },
            _ => {
                self.step = step;
            },
        }
        Ok(())
    }
}

/// `text` without the line feed at its end.
pub open spec fn without_newline(text: Seq<char>) -> Seq<char> {
    if has_suffix(text, "\n"@) {
        text.take(text.len() - "\n"@.len())
    } else {
        text
    }
}

/// Why `text` is not a canonical decimal number, if it is not.
pub open spec fn decimal_refusal(text: Seq<char>) -> Option<(LabErrorKind, Seq<char>)> {
    let digits = without_newline(text);
    if !is_canonical(digits) {
        Some((LabErrorKind::InvalidData, "expected canonical unsigned decimal"@))
    } else if digits_value(digits) > u64::MAX {
        Some((LabErrorKind::InvalidData, "number too large to fit in target type"@))
    } else {
        None
    }
}

fn parse_decimal_chars(text: &[char]) -> (result: Result<u64, LabError>)
    ensures
        match result {
            Ok(value) => decimal_refusal(text@) is None && value == digits_value(
                without_newline(text@),
            ),
            Err(error) => decimal_refusal(text@) == Some(error@),
        },
{
    let digits = match strip_suffix(text, "\n") {
        Some(digits) => digits,
        None => text,
    };
    if !canonical(digits) {
        return Err(failure(LabErrorKind::InvalidData, "expected canonical unsigned decimal"));
    }
    match parse_digits(digits, u64::MAX) {
        Some(value) => Ok(value),
        None => Err(
            failure(LabErrorKind::InvalidData, "number too large to fit in target type"),
        ),
    }
}

/// The number in a file that holds one canonical decimal, with or without a line feed.
pub fn parse_decimal(text: &str) -> (result: Result<u64, LabError>)
    ensures
        match result {
            Ok(value) => decimal_refusal(text@) is None && value == digits_value(
                without_newline(text@),
            ),
            Err(error) => decimal_refusal(text@) == Some(error@),
        },
{
    let chars = chars_of(text);
    parse_decimal_chars(chars.as_slice())
}

/// The parts of a device number before and after its colon.
pub open spec fn number_parts(text: Seq<char>) -> (Seq<char>, Seq<char>) {
    let line = without_newline(text);
    let at = position(line, ':');
    (line.take(at), line.skip(at + 1))
}

/// Why `text` is not a device number, if it is not.
pub open spec fn device_number_refusal(text: Seq<char>) -> Option<(LabErrorKind, Seq<char>)> {
    let line = without_newline(text);
    let (major, minor) = number_parts(text);
    if position(line, ':') >= line.len() {
        Some((LabErrorKind::InvalidData, "expected major:minor"@))
    } else if decimal_refusal(major) is Some {
        decimal_refusal(major)
    } else if decimal_refusal(minor) is Some {
        decimal_refusal(minor)
    } else if digits_value(without_newline(major)) > u32::MAX || digits_value(
        without_newline(minor),
    ) > u32::MAX {
        Some((LabErrorKind::Other, "out of range integral type conversion attempted"@))
    } else {
        None
    }
}

/// The major and minor number in a file that holds them with a colon between.
pub fn parse_device_number(text: &str) -> (result: Result<(u32, u32), LabError>)
    ensures
        match result {
            Ok((major, minor)) => {
                &&& device_number_refusal(text@) is None
                &&& major == digits_value(without_newline(number_parts(text@).0))
                &&& minor == digits_value(without_newline(number_parts(text@).1))
            },
            Err(error) => device_number_refusal(text@) == Some(error@),
        },
{
    let chars = chars_of(text);
    let line = match strip_suffix(chars.as_slice(), "\n") {
        Some(line) => line,
        None => chars.as_slice(),
    };
    let at: usize = find_char(line, ':');
    if at == line.len() {
        return Err(failure(LabErrorKind::InvalidData, "expected major:minor"));
    }
    let major = slice_subrange(line, 0, at);
    let minor = slice_subrange(line, at + 1, line.len());
    assert(major@ =~= number_parts(text@).0);
    assert(minor@ =~= number_parts(text@).1);
    let major: u64 = match parse_decimal_chars(major) {
        Ok(value) => value,
        Err(error) => {
            return Err(error);
        },
    };
    let minor: u64 = match parse_decimal_chars(minor) {
        Ok(value) => value,
        Err(error) => {
            return Err(error);
        },
    };
    if major > u32::MAX as u64 || minor > u32::MAX as u64 {
        return Err(
            failure(LabErrorKind::Other, "out of range integral type conversion attempted"),
        );
    }
    Ok((major as u32, minor as u32))
}

/// What is said of a device of another geometry.
pub open spec fn geometry_text(id: int, logical: int, sectors: int, expected: int) -> Seq<char> {
    "ublkb"@ + decimal(id) + " geometry is "@ + decimal(logical) + "-byte blocks/"@ + decimal(
        sectors,
    ) + " sectors, expected "@ + decimal(4096) + "/"@ + decimal(expected)
}

/// Why the geometry that sysfs shows is not the expected one, if it is not.
pub open spec fn geometry_refusal(
    id: int,
    logical: Observed<String>,
    size: Observed<String>,
    expected: int,
) -> Option<(LabErrorKind, Seq<char>)> {
    match logical {
        Err(error) => Some(error@),
        Ok(logical) => if decimal_refusal(logical@) is Some {
            decimal_refusal(logical@)
        } else {
            match size {
                Err(error) => Some(error@),
                Ok(size) => if decimal_refusal(size@) is Some {
                    decimal_refusal(size@)
                } else {
                    let bytes = digits_value(without_newline(logical@));
                    let sectors = digits_value(without_newline(size@));
                    if bytes != 4096 || sectors != expected {
                        Some((LabErrorKind::Other, geometry_text(id, bytes, sectors, expected)))
                    } else {
                        None
                    }
                },
            }
        },
    }
}

/// Compares the block size and the number of sectors that sysfs shows with those of a device of
/// `expected` sectors.
fn validate_sysfs_geometry_for(
    id: DeviceId,
    logical: Observed<String>,
    size: Observed<String>,
    expected: u64,
) -> (result: Result<(), LabError>)
    ensures
        match result {
            Ok(()) => geometry_refusal(id.value() as int, logical, size, expected as int) is None,
            Err(error) => geometry_refusal(
                id.value() as int,
                logical,
                size,
                expected as int,
            ) == Some(error@),
        },
{
    let logical = match logical {
        Ok(text) => text,
        Err(error) => {
            return Err(error);
        },
    };
    let bytes: u64 = match parse_decimal(logical.as_str()) {
        Ok(value) => value,
        Err(error) => {
            return Err(error);
        },
    };
    let size = match size {
        Ok(text) => text,
        Err(error) => {
            return Err(error);
        },
    };
    let sectors: u64 = match parse_decimal(size.as_str()) {
        Ok(value) => value,
        Err(error) => {
            return Err(error);
        },
    };
    if bytes != BLOCK_BYTES || sectors != expected {
        let mut message = String::from_str("ublkb");
        push_decimal(&mut message, id.get() as u64);
        message.append(" geometry is ");
        push_decimal(&mut message, bytes);
        message.append("-byte blocks/");
        push_decimal(&mut message, sectors);
        message.append(" sectors, expected ");
        push_decimal(&mut message, BLOCK_BYTES);
        message.append("/");
        push_decimal(&mut message, expected);
        return Err(failure_text(LabErrorKind::Other, message));
    }
    Ok(())
}

/// Compares the block size and the number of sectors that sysfs shows with the expected ones.
pub fn validate_sysfs_geometry(
    id: DeviceId,
    logical: Observed<String>,
    size: Observed<String>,
) -> (result: Result<(), LabError>)
    ensures
        match result {
            Ok(()) => geometry_refusal(id.value() as int, logical, size, 512) is None,
            Err(error) => geometry_refusal(id.value() as int, logical, size, 512) == Some(error@),
        },
{
    validate_sysfs_geometry_for(id, logical, size, Geometry::expected().sectors())
}

/// Why the class entry of a device cannot identify it, if it cannot.
pub open spec fn class_refusal(class: Observed<NodeFacts>) -> Option<(LabErrorKind, Seq<char>)> {
    match class {
        Err(error) => Some(error@),
        Ok(facts) => if facts.kind != NodeKind::Directory {
            Some((LabErrorKind::Other, "ublk sysfs class entry is not a directory"@))
        } else {
            None
        },
    }
}

/// What has been observed of a device in sysfs.
#[derive(Debug)]
pub struct SysfsFacts {
    pub logical_block_size: Observed<String>,
    pub size: Observed<String>,
    pub class: Observed<NodeFacts>,
}

/// Why a device cannot be identified in sysfs, if it cannot.
pub open spec fn sysfs_refusal(id: int, facts: SysfsFacts, expected: int) -> Option<
    (LabErrorKind, Seq<char>),
> {
    let geometry = geometry_refusal(id, facts.logical_block_size, facts.size, expected);
    if geometry is Some {
        geometry
    } else {
        class_refusal(facts.class)
    }
}

/// The identity of the class entry of a device of `expected` sectors.
fn validate_sysfs_device_identity_for(id: DeviceId, facts: SysfsFacts, expected: u64) -> (result:
    Result<FileIdentity, LabError>)
    ensures
        match result {
            Ok(identity) => {
                &&& sysfs_refusal(id.value() as int, facts, expected as int) is None
                &&& facts.class matches Ok(class) && identity == class.identity
            },
            Err(error) => sysfs_refusal(id.value() as int, facts, expected as int) == Some(error@),
        },
{
    match validate_sysfs_geometry_for(id, facts.logical_block_size, facts.size, expected) {
        Ok(()) => {},
        Err(error) => {
            return Err(error);
        },
    }
    match facts.class {
        Err(error) => Err(error),
        Ok(class) => {
            if class.kind != NodeKind::Directory {
                Err(failure(LabErrorKind::Other, "ublk sysfs class entry is not a directory"))
            } else {
                Ok(class.identity)
            }
        },
    }
}

/// The identity of the class entry of a device with the expected geometry.
pub fn validate_sysfs_device_identity(id: DeviceId, facts: SysfsFacts) -> (result: Result<
    FileIdentity,
    LabError,
>)
    ensures
        match result {
            Ok(identity) => {
                &&& sysfs_refusal(id.value() as int, facts, 512) is None
                &&& facts.class matches Ok(class) && identity == class.identity
            },
            Err(error) => sysfs_refusal(id.value() as int, facts, 512) == Some(error@),
        },
{
    validate_sysfs_device_identity_for(id, facts, Geometry::expected().sectors())
}

/// What is said of a device node with another number.
pub open spec fn node_text(id: int, actual: (u32, u32), expected: (int, int)) -> Seq<char> {
    "ublkb"@ + decimal(id) + " node identity is "@ + decimal(actual.0 as int) + ":"@ + decimal(
        actual.1 as int,
    ) + ", expected "@ + decimal(expected.0) + ":"@ + decimal(expected.1)
}

/// Why a device node does not belong to the device in sysfs, if it does not.
pub open spec fn device_refusal(
    id: int,
    node: Observed<NodeFacts>,
    number: Observed<String>,
    facts: SysfsFacts,
    expected_sectors: int,
) -> Option<(LabErrorKind, Seq<char>)> {
    match node {
        Err(error) => Some(error@),
        Ok(node) => if node.kind != NodeKind::BlockDevice {
            Some((LabErrorKind::Other, "ublk device node is not a block device"@))
        } else {
            match number {
                Err(error) => Some(error@),
                Ok(text) => if device_number_refusal(text@) is Some {
                    device_number_refusal(text@)
                } else {
                    let expected = (
                        digits_value(without_newline(number_parts(text@).0)),
                        digits_value(without_newline(number_parts(text@).1)),
                    );
                    if node.number.0 != expected.0 || node.number.1 != expected.1 {
                        Some((LabErrorKind::Other, node_text(id, node.number, expected)))
                    } else {
                        sysfs_refusal(id, facts, expected_sectors)
                    }
                },
            }
        },
    }
}

/// The identity of the class entry of a device whose node is the expected one and which holds
/// `volume_bytes` bytes.
pub fn validate_device_identity_for(
    device: &DevicePath,
    node: Observed<NodeFacts>,
    number: Observed<String>,
    facts: SysfsFacts,
    volume_bytes: u64,
) -> (result: Result<FileIdentity, LabError>)
    ensures
        match result {
            Ok(identity) => {
                &&& device_refusal(
                    device.number() as int,
                    node,
                    number,
                    facts,
                    volume_bytes as int / 512,
                ) is None
                &&& facts.class matches Ok(class) && identity == class.identity
            },
            Err(error) => device_refusal(
                device.number() as int,
                node,
                number,
                facts,
                volume_bytes as int / 512,
            ) == Some(error@),
        },
{
    let id = device.id();
    let node = match node {
        Ok(node) => node,
        Err(error) => {
            return Err(error);
        },
    };
    if node.kind != NodeKind::BlockDevice {
        return Err(failure(LabErrorKind::Other, "ublk device node is not a block device"));
    }
    let text = match number {
        Ok(text) => text,
        Err(error) => {
            return Err(error);
        },
    };
    let expected = match parse_device_number(text.as_str()) {
        Ok(expected) => expected,
        Err(error) => {
            return Err(error);
        },
    };
    if node.number.0 != expected.0 || node.number.1 != expected.1 {
        let mut message = String::from_str("ublkb");
        push_decimal(&mut message, id.get() as u64);
        message.append(" node identity is ");
        push_decimal(&mut message, node.number.0 as u64);
        message.append(":");
        push_decimal(&mut message, node.number.1 as u64);
        message.append(", expected ");
        push_decimal(&mut message, expected.0 as u64);
        message.append(":");
        push_decimal(&mut message, expected.1 as u64);
        return Err(failure_text(LabErrorKind::Other, message));
    }
    validate_sysfs_device_identity_for(id, facts, volume_bytes / 512)
}

/// The identity of the class entry of a device whose node and geometry are the expected ones.
pub fn validate_device_identity(
    device: &DevicePath,
    node: Observed<NodeFacts>,
    number: Observed<String>,
    facts: SysfsFacts,
) -> (result: Result<FileIdentity, LabError>)
    ensures
        match result {
            Ok(identity) => {
                &&& device_refusal(device.number() as int, node, number, facts, 512) is None
                &&& facts.class matches Ok(class) && identity == class.identity
            },
            Err(error) => device_refusal(device.number() as int, node, number, facts, 512) == Some(
                error@,
            ),
        },
{
    validate_device_identity_for(device, node, number, facts, Geometry::expected().volume_bytes())
}

/// How fio writes.
#[derive(Clone, Copy, Debug, PartialEq, Eq, Structural)]
pub enum FioRw {
    Write,
    RandomWrite,
}

impl FioRw {
    pub open spec fn text(self) -> Seq<char> {
        match self {
            FioRw::Write => "write"@,
            FioRw::RandomWrite => "randwrite"@,
        }
    }

    /// fio's name for it.
    pub fn name(self) -> (name: &'static str)
        ensures
            name@ == self.text(),
    {
        match self {
            FioRw::Write => "write",
            FioRw::RandomWrite => "randwrite",
        }
    }
}

/// Options of a fio run.
#[derive(Clone, Copy, Debug, PartialEq, Eq, Structural)]
pub struct FioOptions {
    pub do_verify: Option<bool>,
    pub verify_only: bool,
    pub fsync: Option<u64>,
    pub output_json: bool,
}

impl Default for FioOptions {
    fn default() -> (options: FioOptions)
        ensures
            options == (FioOptions {
                do_verify: None,
                verify_only: false,
                fsync: None,
                output_json: false,
            }),
    {
        FioOptions { do_verify: None, verify_only: false, fsync: None, output_json: false }
    }
}

/// The arguments that every fio run has.
pub open spec fn fio_base_args(
    target: Seq<char>,
    name: Seq<char>,
    pattern: u32,
    rw: FioRw,
    size: u64,
    offset: u64,
) -> Seq<Seq<char>> {
    seq![
        "--name="@ + name,
        "--filename="@ + target,
        "--direct=1"@,
        "--ioengine=sync"@,
        "--bs="@ + decimal(4096),
        "--iodepth=1"@,
        "--numjobs=1"@,
        "--rw="@ + rw.text(),
        "--offset="@ + decimal(offset as int),
        "--size="@ + decimal(size as int),
        "--verify=md5"@,
        "--verify_pattern=0x"@ + base_digits(pattern as int, 16, 8),
        "--verify_fatal=1"@,
        "--verify_dump=0"@,
        "--verify_state_save=0"@,
        "--randrepeat=1"@,
        "--randseed=74703"@,
        "--end_fsync=1"@,
    ]
}

/// The arguments that options add to a fio run.
pub open spec fn fio_option_args(options: FioOptions) -> Seq<Seq<char>> {
    (match options.do_verify {
        Some(true) => seq!["--do_verify=1"@],
        Some(false) => seq!["--do_verify=0"@],
        None => Seq::empty(),
    }) + (if options.verify_only {
        seq!["--verify_only=1"@]
    } else {
        Seq::empty()
    }) + (match options.fsync {
        Some(count) => seq!["--fsync="@ + decimal(count as int)],
        None => Seq::empty(),
    }) + (if options.output_json {
        seq!["--output-format=json"@]
    } else {
        Seq::empty()
    })
}

fn numbered(label: &str, number: u64) -> (text: String)
    ensures
        text@ == label@ + decimal(number as int),
{
    let mut text = String::from_str(label);
    push_decimal(&mut text, number);
    text
}

fn labelled(label: &str, value: &str) -> (text: String)
    ensures
        text@ == label@ + value@,
{
    let mut text = String::from_str(label);
    text.append(value);
    text
}

/// A fio run that writes or verifies `size` bytes of `target` in single blocks.
pub fn fio_command(
    target: &str,
    name: &str,
    pattern: u32,
    rw: FioRw,
    size: u64,
    offset: u64,
    options: FioOptions,
) -> (command: CommandLine)
    ensures
        command@ == CommandView::of(
            "fio"@,
            fio_base_args(target@, name@, pattern, rw, size, offset) + fio_option_args(options),
        ),
{
    let mut command = CommandLine::new("fio");
    command.arg_text(labelled("--name=", name));
    command.arg_text(labelled("--filename=", target));
    command.arg("--direct=1");
    command.arg("--ioengine=sync");
    command.arg_text(numbered("--bs=", BLOCK_BYTES));
    command.arg("--iodepth=1");
    command.arg("--numjobs=1");
    command.arg_text(labelled("--rw=", rw.name()));
    command.arg_text(numbered("--offset=", offset));
    command.arg_text(numbered("--size=", size));
    command.arg("--verify=md5");
    let mut text = String::from_str("--verify_pattern=0x");
    push_base(&mut text, pattern as u64, 16, 8);
    command.arg_text(text);
    command.arg("--verify_fatal=1");
    command.arg("--verify_dump=0");
    command.arg("--verify_state_save=0");
    command.arg("--randrepeat=1");
    command.arg("--randseed=74703");
    command.arg("--end_fsync=1");
    let ghost base = fio_base_args(target@, name@, pattern, rw, size, offset);
    assert(command@.args =~= base);
    match options.do_verify {
        Some(true) => command.arg("--do_verify=1"),
        Some(false) => command.arg("--do_verify=0"),
        None => {},
    }
    if options.verify_only {
        command.arg("--verify_only=1");
    }
    match options.fsync {
        Some(count) => command.arg_text(numbered("--fsync=", count)),
        None => {},
    }
    if options.output_json {
        command.arg("--output-format=json");
    }
    assert(command@.args =~= base + fio_option_args(options));
    command
}

/// Law: a line feed at the end of a text is dropped, one and no more, and nothing else is.
pub proof fn law_one_line_feed_is_dropped(text: Seq<char>)
    ensures
        without_newline(text + seq!['\n']) == text,
        text.len() == 0 || text.last() != '\n' ==> without_newline(text) == text,
{
    reveal_strlit("\n");
    assert("\n"@ =~= seq!['\n']);
    let ended = text + seq!['\n'];
    assert(ended.skip(ended.len() - 1) =~= "\n"@);
    assert(ended.take(ended.len() - 1) =~= text);
    if has_suffix(text, "\n"@) {
        assert(text.skip(text.len() - 1)[0] == '\n');
    }
}

/// Law: a number in sysfs is read exactly if it is in canonical decimal and fits, with or without a
/// line feed behind it.
pub proof fn law_sysfs_numbers(number: int, text: Seq<char>)
    requires
        0 <= number,
    ensures
        decimal_refusal(decimal(number)) is None <==> number <= 0xffff_ffff_ffff_ffff,
        decimal_refusal(decimal(number) + seq!['\n']) is None <==> number <= 0xffff_ffff_ffff_ffff,
        digits_value(without_newline(decimal(number))) == number,
        digits_value(without_newline(decimal(number) + seq!['\n'])) == number,
        decimal_refusal(text) is None ==> without_newline(text) == decimal(
            digits_value(without_newline(text)),
        ),
{
    law_decimal_denotes_its_number(number);
    law_one_line_feed_is_dropped(decimal(number));
    assert(is_digit(decimal(number).last()));
    if decimal_refusal(text) is None {
        law_canonical_is_decimal(without_newline(text));
    }
}

/// Law: a device number in sysfs is read exactly as the two numbers that its colon separates, each
/// in canonical decimal, as long as they fit.
pub proof fn law_sysfs_device_numbers(major: int, minor: int)
    requires
        0 <= major,
        0 <= minor,
    ensures
        ({
            let text = decimal(major) + seq![':'] + decimal(minor) + seq!['\n'];
            &&& device_number_refusal(text) is None <==> major <= 0xffff_ffff && minor
                <= 0xffff_ffff
            &&& digits_value(without_newline(number_parts(text).0)) == major
            &&& digits_value(without_newline(number_parts(text).1)) == minor
        }),
{
    let (first, second) = (decimal(major), decimal(minor));
    let line = first + seq![':'] + second;
    law_sysfs_numbers(major, Seq::empty());
    law_sysfs_numbers(minor, Seq::empty());
    law_decimal_denotes_its_number(major);
    law_decimal_denotes_its_number(minor);
    law_one_line_feed_is_dropped(line);
    assert forall|i: int| 0 <= i < first.len() implies #[trigger] first[i] != ':' by {
        assert(is_digit(first[i]));
    }
    lemma_position_behind(first, ':', second);
    assert(line.take(first.len() as int) =~= first);
    assert(line.skip(first.len() as int + 1) =~= second);
}

/// Law: a device has the expected geometry exactly if sysfs shows blocks of 4096 bytes and exactly
/// the expected number of sectors.
pub proof fn law_expected_geometry(
    id: int,
    logical: Observed<String>,
    size: Observed<String>,
    expected: int,
)
    requires
        0 <= expected <= u64::MAX,
    ensures
        geometry_refusal(id, logical, size, expected) is None <==> {
            &&& logical matches Ok(shown) && without_newline(shown@) == decimal(4096)
            &&& size matches Ok(shown) && without_newline(shown@) == decimal(expected)
        },
{
    law_decimal_denotes_its_number(4096);
    law_decimal_denotes_its_number(expected);
    if let Ok(shown) = logical {
        if decimal_refusal(shown@) is None {
            law_canonical_is_decimal(without_newline(shown@));
        }
    }
    if let Ok(shown) = size {
        if decimal_refusal(shown@) is None {
            law_canonical_is_decimal(without_newline(shown@));
        }
    }
}

/// Law: a device is identified exactly if its node is a block device with the number that sysfs
/// shows, its geometry is the expected one, and its class entry is a directory.
pub proof fn law_identified_devices(
    id: int,
    node: Observed<NodeFacts>,
    number: Observed<String>,
    facts: SysfsFacts,
    sectors: int,
)
    requires
        0 <= sectors <= u64::MAX,
    ensures
        device_refusal(id, node, number, facts, sectors) is None <==> {
            &&& node matches Ok(found) && found.kind is BlockDevice && (number matches Ok(shown)
                && device_number_refusal(shown@) is None && digits_value(
                without_newline(number_parts(shown@).0),
            ) == found.number.0 && digits_value(without_newline(number_parts(shown@).1))
                == found.number.1)
            &&& facts.logical_block_size matches Ok(shown) && without_newline(shown@) == decimal(4096)
            &&& facts.size matches Ok(shown) && without_newline(shown@) == decimal(sectors)
            &&& facts.class matches Ok(class) && class.kind is Directory
        },
{
    law_expected_geometry(id, facts.logical_block_size, facts.size, sectors);
}

/// Law: a directory is the one that the lab made exactly if its name is one of the lab's, its path
/// is canonical, it is a directory of the lab's user with the recorded identity, and its marker is
/// a regular file of that user which holds that identity.
pub proof fn law_owned_directories(
    path: Seq<char>,
    expected: FileIdentity,
    facts: OwnedDirFacts,
)
    ensures
        owned_dir_refusal(path, expected, facts) is None <==> {
            &&& has_prefix(file_name(path), "my-block-storage-ublk."@)
            &&& facts.canonical == Ok::<bool, LabError>(true)
            &&& facts.directory matches Ok(directory) && directory.kind is Directory && directory.uid
                == facts.effective_uid && directory.identity == expected
            &&& facts.marker matches Ok(marker) && marker.kind is File && marker.uid
                == facts.effective_uid
            &&& facts.marker_text matches Ok(text) && trimmed(text@) == decimal(
                expected.device as int,
            ) + ":"@ + decimal(expected.inode as int)
        },
{
}

/// Law: an entry may be removed exactly if it is a regular file of the lab's user on the
/// directory's file system.
pub proof fn law_removable_entries(entry: NodeFacts, owner: FileIdentity, effective_uid: u32)
    ensures
        !entry_refused(entry, owner, effective_uid) <==> entry.kind is File && entry.uid
            == effective_uid && entry.identity.device == owner.device,
{
}

/// Law: a removal goes on, from each step, exactly as what came of that step allows: nothing comes
/// behind an error, every entry but the marker is looked at and then removed, and the marker and the
/// directory are removed once, in this order, when no entry is left.
pub proof fn law_removal_goes_on(
    path: Seq<char>,
    identity: FileIdentity,
    shown: Seq<char>,
    facts: OwnedDirFacts,
    entry: OwnedEntry,
    node: NodeFacts,
    effective_uid: u32,
)
    ensures
        ({
            let next = |step: CleanStep, event: CleanEvent|
                clean_next(path, identity, step, shown, event);
            let removed = CleanEvent::Removed(Ok(()));
            &&& next(CleanStep::Validate, CleanEvent::Directory(facts)) is Ok <==> owned_dir_refusal(
                path,
                identity,
                facts,
            ) is None
            &&& next(CleanStep::Validate, CleanEvent::Directory(facts)) matches Ok((after, _))
                ==> after is Next
            &&& next(CleanStep::Next, CleanEvent::Entry(Ok(None))) matches Ok((after, _)) && after
                is RemoveMarker
            &&& next(CleanStep::Next, CleanEvent::Entry(Ok(Some(entry)))) matches Ok((after, text))
                && (if entry.name@ == ".owned-by-block-storage-lab"@ {
                after is Next
            } else {
                after is Inspect && text == entry.shown@
            })
            &&& next(
                CleanStep::Inspect,
                CleanEvent::Facts { entry: Ok(node), effective_uid },
            ) is Ok <==> node.kind is File && node.uid == effective_uid && node.identity.device
                == identity.device
            &&& next(
                CleanStep::Inspect,
                CleanEvent::Facts { entry: Ok(node), effective_uid },
            ) matches Ok((after, text)) ==> after is RemoveEntry && text == shown
            &&& next(CleanStep::RemoveEntry, removed) matches Ok((after, _)) && after is Next
            &&& next(CleanStep::RemoveMarker, removed) matches Ok((after, _)) && after
                is RemoveDirectory
            &&& next(CleanStep::RemoveDirectory, removed) matches Ok((after, _)) && after is Done
        }),
{
}

/// Law: the number of a device is any number that fits, in canonical decimal, and nothing else is.
pub proof fn law_device_ids(number: int, text: Seq<char>)
    requires
        0 <= number,
    ensures
        DeviceId::refusal(decimal(number)) is None <==> number <= 0xffff_ffff,
        DeviceId::refusal(text) is None ==> text == decimal(digits_value(text)),
        DevicePath::refusal("/dev/ublkb"@ + decimal(number)) is None <==> number <= 0xffff_ffff,
{
    law_decimal_denotes_its_number(number);
    let head = "/dev/ublkb"@;
    let path = head + decimal(number);
    assert(path.take(head.len() as int) =~= head);
    assert(path.skip(head.len() as int) =~= decimal(number));
    if DeviceId::refusal(text) is None {
        law_canonical_is_decimal(text);
    }
}

} // verus!
