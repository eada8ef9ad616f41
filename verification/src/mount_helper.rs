//! The decisions of the privileged mount helper.

use crate::lab::error::{demand, failure, failure_text, LabError, LabErrorKind};
#[allow(unused_imports)]
use crate::lab::error::demanded;
use crate::lab::node::{FileIdentity, NodeFacts, NodeKind, Observed};
use crate::mounts::{owned_name, BACKING_BYTES, VOLUME_BYTES};
#[allow(unused_imports)]
use crate::mounts::is_owned_name;
use crate::text::{
    chars_of, decimal_text, equals, lines, parse_digits, push_decimal, spells, strip_prefix, trim,
};
#[allow(unused_imports)]
use crate::text::{
    all_digits, decimal, digits_value, has_prefix, is_digit, is_space,
    law_decimal_denotes_its_number, law_trimming_drops_only_space, lemma_position_behind, lines_of,
    trimmed, views,
};
use vstd::prelude::*;

verus! {

/// Set in the flags of a ublk device that needs no privilege.
pub const UNPRIVILEGED_DEVICE: u64 = 32;

/// What the helper is asked to do.
#[derive(Debug, PartialEq, Eq)]
pub enum Action {
    Check,
    Mount(u32, String),
    Unmount(u32, String),
}

/// The meaning of an action.
pub ghost enum ActionView {
    Check,
    Mount(u32, Seq<char>),
    Unmount(u32, Seq<char>),
}

impl View for Action {
    type V = ActionView;

    open spec fn view(&self) -> ActionView {
        match *self {
            Action::Check => ActionView::Check,
            Action::Mount(id, name) => ActionView::Mount(id, name@),
            Action::Unmount(id, name) => ActionView::Unmount(id, name@),
        }
    }
}

/// Whether `text` is the number of a ublk device.
pub open spec fn is_device_number(text: Seq<char>) -> bool {
    text.len() > 0 && all_digits(text) && digits_value(text) <= i32::MAX
}

/// The action that arguments ask for: `check` alone, or `mount` or `unmount` with a device
/// number and the name of a directory that the lab made.
pub open spec fn action_of(args: Seq<String>) -> Option<ActionView> {
    if args.len() == 1 && args[0]@ == "check"@ {
        Some(ActionView::Check)
    } else if args.len() == 3 && is_owned_name(args[2]@) && is_device_number(args[1]@) {
        let id = digits_value(args[1]@) as u32;
        if args[0]@ == "mount"@ {
            Some(ActionView::Mount(id, args[2]@))
        } else if args[0]@ == "unmount"@ {
            Some(ActionView::Unmount(id, args[2]@))
        } else {
            None
        }
    } else {
        None
    }
}

/// How the helper is used.
pub open spec fn helper_usage() -> (LabErrorKind, Seq<char>) {
    (
        LabErrorKind::InvalidInput,
        "usage: /usr/local/libexec/block-storage-mount check | mount <ublk-id> <owned-directory-name> | unmount <ublk-id> <owned-directory-name>"@,
    )
}

fn usage() -> (error: LabError)
    ensures
        error@ == helper_usage(),
{
    failure(
        LabErrorKind::InvalidInput,
        "usage: /usr/local/libexec/block-storage-mount check | mount <ublk-id> <owned-directory-name> | unmount <ublk-id> <owned-directory-name>",
    )
}

/// The action that the arguments behind the program's name ask for.
pub fn parse_args(args: &Vec<String>) -> (result: Result<Action, LabError>)
    ensures
        match result {
            Ok(action) => action_of(args@) == Some(action@),
            Err(error) => action_of(args@) is None && error@ == helper_usage(),
        },
{
    if args.len() == 0 {
        return Err(usage());
    }
    let verb = chars_of(args[0].as_str());
    if args.len() == 1 && spells(verb.as_slice(), "check") {
        return Ok(Action::Check);
    }
    if args.len() != 3 || !owned_name(args[2].as_str()) {
        return Err(usage());
    }
    let number = chars_of(args[1].as_str());
    let id: u64 = match parse_digits(number.as_slice(), i32::MAX as u64) {
        Some(id) => id,
        None => {
            return Err(usage());
        },
    };
    if spells(verb.as_slice(), "mount") {
        Ok(Action::Mount(id as u32, args[2].clone()))
    } else if spells(verb.as_slice(), "unmount") {
        Ok(Action::Unmount(id as u32, args[2].clone()))
    } else {
        Err(usage())
    }
}

/// Why a caller may not use the helper, if it may not.
pub open spec fn caller_refusal(
    effective_uid: u32,
    uid: Observed<u32>,
    gid: Observed<u32>,
) -> Option<(LabErrorKind, Seq<char>)> {
    if effective_uid != 0 {
        Some((LabErrorKind::PermissionDenied, "run the installed root-owned helper through sudo"@))
    } else {
        match (uid, gid) {
            (Err(error), _) => Some(error@),
            (_, Err(error)) => Some(error@),
            (Ok(uid), _) => if uid == 0 {
                Some((LabErrorKind::Other, "helper requires a non-root sudo caller"@))
            } else {
                None
            },
        }
    }
}

/// The user and the group on whose behalf the helper runs.
pub fn invoking_user(effective_uid: u32, uid: Observed<u32>, gid: Observed<u32>) -> (result: Result<
    (u32, u32),
    LabError,
>)
    ensures
        match result {
            Ok(caller) => {
                &&& caller_refusal(effective_uid, uid, gid) is None
                &&& uid == Ok::<u32, LabError>(caller.0)
                &&& gid == Ok::<u32, LabError>(caller.1)
            },
            Err(error) => caller_refusal(effective_uid, uid, gid) == Some(error@),
        },
{
    if effective_uid != 0 {
        return Err(
            failure(
                LabErrorKind::PermissionDenied,
                "run the installed root-owned helper through sudo",
            ),
        );
    }
    let uid: u32 = match uid {
        Ok(uid) => uid,
        Err(error) => {
            return Err(error);
        },
    };
    let gid: u32 = match gid {
        Ok(gid) => gid,
        Err(error) => {
            return Err(error);
        },
    };
    if uid == 0 {
        return Err(failure(LabErrorKind::Other, "helper requires a non-root sudo caller"));
    }
    Ok((uid, gid))
}

/// What the helper prints when it is asked to check itself.
pub fn check_line(uid: u32) -> (line: String)
    ensures
        line@ == "block-storage-mount protocol=1 uid="@ + decimal(uid as int),
{
    let mut line = String::from_str("block-storage-mount protocol=1 uid=");
    push_decimal(&mut line, uid as u64);
    line
}

/// Where a fixture is mounted.
pub fn fixture_path(name: &str) -> (path: String)
    ensures
        path@ == "/tmp/"@ + name@ + "/mount"@,
{
    let mut path = String::from_str("/tmp/");
    path.append(name);
    path.append("/mount");
    path
}

/// Reports that a fixture was mounted and could not be set up, and how taking it down went.
pub fn mount_setup_failure(error: &LabError, rollback: &str, path: &str) -> (result: LabError)
    ensures
        result@ == (
            LabErrorKind::Other,
            "mount setup failed: "@ + error@.1 + "; rollback: "@ + rollback@ + "; fixture="@
                + path@,
        ),
{
    let mut message = String::from_str("mount setup failed: ");
    message.append(error.message.as_str());
    message.append("; rollback: ");
    message.append(rollback);
    message.append("; fixture=");
    message.append(path);
    failure_text(LabErrorKind::Other, message)
}

/// Demands that a fixture's directory belongs to the caller alone.
pub fn check_fixture_parent(parent: NodeFacts, uid: u32) -> (result: Result<(), LabError>)
    ensures
        demanded(
            parent.uid == uid && parent.mode & 0o777 == 0o700,
            "fixture parent must be caller-owned mode 0700"@,
            result,
        ),
{
    demand(
        parent.uid == uid && parent.mode & 0o777 == 0o700,
        "fixture parent must be caller-owned mode 0700",
    )
}

/// Demands that a fixture's backing is the caller's regular file of the right size.
pub fn check_fixture_backing(backing: NodeFacts, uid: u32) -> (result: Result<(), LabError>)
    ensures
        demanded(
            backing.kind == NodeKind::File && backing.uid == uid && backing.len == BACKING_BYTES,
            "fixture backing is not the caller-owned bounded regular file"@,
            result,
        ),
{
    demand(
        backing.kind == NodeKind::File && backing.uid == uid && backing.len == BACKING_BYTES,
        "fixture backing is not the caller-owned bounded regular file",
    )
}

/// Demands that a mount directory is the caller's, empty, and on the fixture's file system.
pub fn check_mount_target(target: NodeFacts, parent: NodeFacts, uid: u32, empty: bool) -> (result:
    Result<(), LabError>)
    ensures
        demanded(
            target.uid == uid && target.identity.device == parent.identity.device && empty,
            "mount directory is not empty and caller-owned on the fixture filesystem"@,
            result,
        ),
{
    demand(
        target.uid == uid && target.identity.device == parent.identity.device && empty,
        "mount directory is not empty and caller-owned on the fixture filesystem",
    )
}

/// Demands that a mounted root is on the recorded device and that only root can change it.
pub fn check_mounted_root(root: NodeFacts, device: u64) -> (result: Result<(), LabError>)
    ensures
        demanded(
            root.identity.device == device && root.uid == 0 && root.mode & 0o022 == 0,
            "mounted root must belong to the recorded device and be root-owned without group/other write permission"@,
            result,
        ),
{
    demand(
        root.identity.device == device && root.uid == 0 && root.mode & 0o022 == 0,
        "mounted root must belong to the recorded device and be root-owned without group/other write permission",
    )
}

/// Demands that a directory that was just made is root's alone, on the mounted file system.
pub fn check_new_work_directory(work: NodeFacts, root: NodeFacts) -> (result: Result<(), LabError>)
    ensures
        demanded(
            work.uid == 0 && work.identity.device == root.identity.device && work.mode & 0o077
                == 0,
            "new work directory identity or permissions changed"@,
            result,
        ),
{
    demand(
        work.uid == 0 && work.identity.device == root.identity.device && work.mode & 0o077 == 0,
        "new work directory identity or permissions changed",
    )
}

/// Demands that a directory that was there already is the caller's, on the mounted file system.
pub fn check_existing_work_directory(work: NodeFacts, root: NodeFacts, uid: u32, gid: u32) -> (result:
    Result<(), LabError>)
    ensures
        demanded(
            work.uid == uid && work.gid == gid && work.identity.device == root.identity.device,
            "existing work directory has unexpected ownership or filesystem"@,
            result,
        ),
{
    demand(
        work.uid == uid && work.gid == gid && work.identity.device == root.identity.device,
        "existing work directory has unexpected ownership or filesystem",
    )
}

/// What follows the attempt to make the work directory.
#[derive(Debug)]
pub enum WorkStep {
    /// It was made: check it with [`check_new_work_directory`] and hand it over.
    HandOver,
    /// It was there: check it with [`check_existing_work_directory`].
    Inspect,
    /// It cannot be made.
    Fail(LabError),
}

/// Decides what follows the attempt to make the work directory.
pub fn after_creating_work_directory(created: Observed<()>) -> (step: WorkStep)
    ensures
        match created {
            Ok(()) => step is HandOver,
            Err(error) => if error.kind == LabErrorKind::AlreadyExists {
                step is Inspect
            } else {
                step matches WorkStep::Fail(found) && found@ == error@
            },
        },
{
    match created {
        Ok(()) => WorkStep::HandOver,
        Err(error) => {
            if error.kind == LabErrorKind::AlreadyExists {
                WorkStep::Inspect
            } else {
                WorkStep::Fail(error)
            }
        },
    }
}

/// Whether a line of a descriptor's information gives the mount number `id`.
pub open spec fn gives_mount_id(line: Seq<char>, id: u64) -> bool {
    has_prefix(line, "mnt_id:"@) && trimmed(line.skip("mnt_id:"@.len() as int)) == decimal(
        id as int,
    )
}

/// Demands that an open descriptor is on the mount that the table shows.
pub fn check_mount_descriptor(fdinfo: &str, id: u64) -> (result: Result<(), LabError>)
    ensures
        demanded(
            exists|i: int|
                0 <= i < lines_of(fdinfo@).len() && gives_mount_id(
                    #[trigger] lines_of(fdinfo@)[i],
                    id,
                ),
            "opened mount descriptor differs from mountinfo identity"@,
            result,
        ),
{
    let chars = chars_of(fdinfo);
    let all = lines(chars.as_slice());
    let expected = chars_of(decimal_text(id).as_str());
    let mut i: usize = 0;
    while i < all.len()
        invariant
            i <= all@.len(),
            views(all@) == lines_of(fdinfo@),
            expected@ == decimal(id as int),
            forall|j: int| 0 <= j < i ==> !gives_mount_id(#[trigger] lines_of(fdinfo@)[j], id),
        decreases all@.len() - i,
    {
        assert(views(all@)[i as int] == all@[i as int]@);
        match strip_prefix(all[i].as_slice(), "mnt_id:") {
            Some(value) => {
                if equals(trim(value), expected.as_slice()) {
                    assert(gives_mount_id(lines_of(fdinfo@)[i as int], id));
                    return Ok(());
                }
            },
            None => {},
        }
        i = i + 1;
    }
    Err(failure(LabErrorKind::Other, "opened mount descriptor differs from mountinfo identity"))
}

/// Demands that the lock file is root's private regular file with one name.
pub fn check_helper_lock(lock: NodeFacts) -> (result: Result<(), LabError>)
    ensures
        demanded(
            lock.kind == NodeKind::File && lock.uid == 0 && lock.mode & 0o077 == 0 && lock.links
                == 1,
            "helper lock must be a private root-owned regular file"@,
            result,
        ),
{
    demand(
        lock.kind == NodeKind::File && lock.uid == 0 && lock.mode & 0o077 == 0 && lock.links == 1,
        "helper lock must be a private root-owned regular file",
    )
}

/// How a device number is written.
pub open spec fn number_text(number: (u32, u32)) -> Seq<char> {
    decimal(number.0 as int) + ":"@ + decimal(number.1 as int)
}

/// Demands that a device node is a block device with the number that the kernel shows.
pub fn check_device_node(node: NodeFacts, kernel_number: &str) -> (result: Result<(), LabError>)
    ensures
        demanded(
            node.kind == NodeKind::BlockDevice && trimmed(kernel_number@) == number_text(
                node.number,
            ),
            "device node does not match kernel device identity"@,
            result,
        ),
{
    let mut expected = String::new();
    push_decimal(&mut expected, node.number.0 as u64);
    expected.append(":");
    push_decimal(&mut expected, node.number.1 as u64);
    assert(expected@ =~= number_text(node.number));
    let expected = chars_of(expected.as_str());
    let shown = chars_of(kernel_number);
    demand(
        node.kind == NodeKind::BlockDevice && equals(trim(shown.as_slice()), expected.as_slice()),
        "device node does not match kernel device identity",
    )
}

/// Demands that the device did not change while its node was opened.
pub fn check_class_unchanged(before: FileIdentity, after: FileIdentity) -> (result: Result<
    (),
    LabError,
>)
    ensures
        demanded(before == after, "ublk identity changed while opening device"@, result),
{
    demand(
        before.device == after.device && before.inode == after.inode,
        "ublk identity changed while opening device",
    )
}

/// Demands that a device is an unprivileged one of the caller with the fixture's geometry.
pub fn validate_device_parameters(
    owner: u32,
    flags: u64,
    logical_bs_shift: u8,
    dev_sectors: u64,
    uid: u32,
) -> (result: Result<(), LabError>)
    ensures
        match result {
            Ok(()) => {
                &&& owner == uid
                &&& flags & UNPRIVILEGED_DEVICE != 0
                &&& logical_bs_shift == 12
                &&& dev_sectors == VOLUME_BYTES / 512
            },
            Err(error) => if owner != uid || flags & UNPRIVILEGED_DEVICE == 0 {
                error@ == (
                    LabErrorKind::Other,
                    "ublk device is not an unprivileged device owned by the sudo caller"@,
                )
            } else {
                &&& logical_bs_shift != 12 || dev_sectors != VOLUME_BYTES / 512
                &&& error@ == (
                    LabErrorKind::Other,
                    "ublk geometry differs from the ext4 fixture"@,
                )
            },
        },
{
    if owner != uid || flags & UNPRIVILEGED_DEVICE == 0 {
        return Err(
            failure(
                LabErrorKind::Other,
                "ublk device is not an unprivileged device owned by the sudo caller",
            ),
        );
    }
    if logical_bs_shift != 12 || dev_sectors != VOLUME_BYTES / 512 {
        return Err(failure(LabErrorKind::Other, "ublk geometry differs from the ext4 fixture"));
    }
    Ok(())
}

/// Law: what the helper can be asked. Alone it is asked to check; with the number of a device, up to
/// the greatest that there can be, and the name of one of the lab's own directories it is asked to
/// mount or to unmount exactly these; anything else is refused.
pub proof fn law_helper_actions(args: Seq<String>, id: u32)
    ensures
        action_of(args) == Some(ActionView::Check) <==> args.len() == 1 && args[0]@ == "check"@,
        args.len() == 3 && args[0]@ == "mount"@ && args[1]@ == decimal(id as int) && is_owned_name(
            args[2]@,
        ) ==> (if id <= 0x7fff_ffff {
            action_of(args) == Some(ActionView::Mount(id, args[2]@))
        } else {
            action_of(args) is None
        }),
        args.len() == 3 && args[0]@ == "unmount"@ && args[1]@ == decimal(id as int)
            && is_owned_name(args[2]@) ==> (if id <= 0x7fff_ffff {
            action_of(args) == Some(ActionView::Unmount(id, args[2]@))
        } else {
            action_of(args) is None
        }),
        action_of(args) matches Some(action) ==> !(action is Check) ==> {
            &&& args.len() == 3
            &&& is_owned_name(args[2]@)
            &&& args[1]@.len() > 0
            &&& all_digits(args[1]@)
            &&& args[0]@ == (if action is Mount {
                "mount"@
            } else {
                "unmount"@
            })
        },
{
    law_decimal_denotes_its_number(id as int);
    reveal_strlit("mount");
    reveal_strlit("unmount");
    assert("mount"@.len() == 5 && "unmount"@.len() == 7);
}

/// Law: the helper serves a caller exactly if it runs as root on behalf of someone else, whose user
/// and group are known.
pub proof fn law_helper_callers(effective_uid: u32, uid: Observed<u32>, gid: Observed<u32>)
    ensures
        caller_refusal(effective_uid, uid, gid) is None <==> {
            &&& effective_uid == 0
            &&& uid matches Ok(user) && user != 0
            &&& gid is Ok
        },
        effective_uid != 0 ==> (caller_refusal(effective_uid, uid, gid) matches Some((kind, _))
            && kind is PermissionDenied),
{
}

/// Law: a descriptor's information names a mount exactly by that mount's number, apart from white
/// space around it.
pub proof fn law_mount_numbers_are_told_apart(id: u64, other: u64, before: Seq<char>)
    requires
        forall|i: int| 0 <= i < before.len() ==> is_space(#[trigger] before[i]),
    ensures
        gives_mount_id("mnt_id:"@ + before + decimal(id as int), other) <==> id == other,
{
    let head = "mnt_id:"@;
    let line = head + before + decimal(id as int);
    let none = Seq::<char>::empty();
    let digits = decimal(id as int);
    law_decimal_denotes_its_number(id as int);
    assert(line.take(head.len() as int) =~= head);
    assert(line.skip(head.len() as int) =~= before + digits + none);
    assert(is_digit(digits[0]) && is_digit(digits.last()));
    law_trimming_drops_only_space(before, digits, none);
    if id != other {
        law_decimal_denotes_its_number(other as int);
    }
}

/// Law: two devices are written in the same way exactly if they have the same number.
pub proof fn law_device_numbers_are_told_apart(number: (u32, u32), other: (u32, u32))
    ensures
        number_text(number) == number_text(other) <==> number.0 == other.0 && number.1 == other.1,
{
    reveal_strlit(":");
    assert(":"@ =~= seq![':']);
    let (a, b) = (decimal(number.0 as int), decimal(number.1 as int));
    let (c, d) = (decimal(other.0 as int), decimal(other.1 as int));
    law_decimal_denotes_its_number(number.0 as int);
    law_decimal_denotes_its_number(number.1 as int);
    law_decimal_denotes_its_number(other.0 as int);
    law_decimal_denotes_its_number(other.1 as int);
    assert forall|i: int| 0 <= i < a.len() implies #[trigger] a[i] != ':' by {
        assert(is_digit(a[i]));
    }
    assert forall|i: int| 0 <= i < c.len() implies #[trigger] c[i] != ':' by {
        assert(is_digit(c[i]));
    }
    lemma_position_behind(a, ':', b);
    lemma_position_behind(c, ':', d);
    let (left, right) = (number_text(number), number_text(other));
    assert(left =~= a + seq![':'] + b);
    assert(right =~= c + seq![':'] + d);
    if left == right {
        assert(left.take(a.len() as int) =~= a);
        assert(right.take(c.len() as int) =~= c);
        assert(left.skip(a.len() as int + 1) =~= b);
        assert(right.skip(c.len() as int + 1) =~= d);
    }
}

} // verus!
