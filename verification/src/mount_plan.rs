//! The order in which the mount helper looks at a fixture, mounts it and takes it down.

use crate::mount_helper::Action;
use vstd::prelude::*;

verus! {

/// One operation of the helper.
#[derive(Clone, Copy, Debug, PartialEq, Eq, Structural)]
pub enum HelperOp {
    /// Open the fixture's directory, which must be the caller's alone.
    OpenParent,
    /// Open the fixture's backing, which must be the caller's.
    OpenBacking,
    /// Open the device's entry among the kernel's classes, and the device's controller.
    OpenClass,
    /// Demand that the kernel knows the device as the caller's.
    CheckOwner,
    /// Open the device node, which must be the one that the kernel knows.
    OpenDevice,
    /// Demand that the device's entry is still the same.
    CheckClass,
    /// Open the mount directory.
    OpenTarget,
    /// Read the mount table.
    ReadMounts,
    /// Demand that neither the device nor the directory is mounted, by the table that was read.
    RequireUnmounted,
    /// Demand that the mount directory is empty and the caller's.
    CheckTarget,
    /// Mount the device.
    Mount,
    /// Demand that the device alone is mounted there, by the table that was read.
    RequireMounted,
    /// Open the mounted root, which only root may change.
    OpenRoot,
    /// Make the work directory, or find it made.
    MakeWork,
    /// Demand that the mount directory that was opened is the mounted one.
    CheckDescriptor,
    /// Close the mount directory, which would keep the file system busy.
    CloseTarget,
    /// Unmount the device.
    Unmount,
}

/// The operations that open a fixture.
pub open spec fn open_list() -> Seq<HelperOp> {
    seq![
        HelperOp::OpenParent,
        HelperOp::OpenBacking,
        HelperOp::OpenClass,
        HelperOp::CheckOwner,
        HelperOp::OpenDevice,
        HelperOp::CheckOwner,
        HelperOp::CheckClass,
        HelperOp::OpenTarget,
    ]
}

/// The operations that mount an open fixture.
pub open spec fn mount_list() -> Seq<HelperOp> {
    seq![
        HelperOp::ReadMounts,
        HelperOp::RequireUnmounted,
        HelperOp::CheckTarget,
        HelperOp::Mount,
        HelperOp::ReadMounts,
        HelperOp::RequireMounted,
        HelperOp::OpenRoot,
        HelperOp::MakeWork,
    ]
}

/// The operations that take down an open fixture.
pub open spec fn unmount_list() -> Seq<HelperOp> {
    seq![
        HelperOp::ReadMounts,
        HelperOp::RequireMounted,
        HelperOp::CheckDescriptor,
        HelperOp::CloseTarget,
        HelperOp::Unmount,
        HelperOp::ReadMounts,
        HelperOp::RequireUnmounted,
    ]
}

/// The operations that an action asks for.
pub open spec fn plan_of(action: Action) -> Seq<HelperOp> {
    match action {
        Action::Check => Seq::empty(),
        Action::Mount(_, _) => open_list() + mount_list(),
        Action::Unmount(_, _) => open_list() + unmount_list(),
    }
}

fn push_open(ops: &mut Vec<HelperOp>)
    ensures
        final(ops)@ == old(ops)@ + open_list(),
{
    let ghost before = ops@;
    ops.push(HelperOp::OpenParent);
    ops.push(HelperOp::OpenBacking);
    ops.push(HelperOp::OpenClass);
    ops.push(HelperOp::CheckOwner);
    ops.push(HelperOp::OpenDevice);
    ops.push(HelperOp::CheckOwner);
    ops.push(HelperOp::CheckClass);
    ops.push(HelperOp::OpenTarget);
    assert(ops@ =~= before + open_list());
}

fn push_unmount(ops: &mut Vec<HelperOp>)
    ensures
        final(ops)@ == old(ops)@ + unmount_list(),
{
    let ghost before = ops@;
    ops.push(HelperOp::ReadMounts);
    ops.push(HelperOp::RequireMounted);
    ops.push(HelperOp::CheckDescriptor);
    ops.push(HelperOp::CloseTarget);
    ops.push(HelperOp::Unmount);
    ops.push(HelperOp::ReadMounts);
    ops.push(HelperOp::RequireUnmounted);
    assert(ops@ =~= before + unmount_list());
}

/// The operations that an action asks for.
pub fn plan(action: &Action) -> (ops: Vec<HelperOp>)
    ensures
        ops@ == plan_of(*action),
{
    let mut ops: Vec<HelperOp> = Vec::new();
    match action {
        Action::Check => {},
        Action::Mount(_, _) => {
            push_open(&mut ops);
            ops.push(HelperOp::ReadMounts);
            ops.push(HelperOp::RequireUnmounted);
            ops.push(HelperOp::CheckTarget);
            ops.push(HelperOp::Mount);
            ops.push(HelperOp::ReadMounts);
            ops.push(HelperOp::RequireMounted);
            ops.push(HelperOp::OpenRoot);
            ops.push(HelperOp::MakeWork);
        },
        Action::Unmount(_, _) => {
            push_open(&mut ops);
            push_unmount(&mut ops);
        },
    }
    assert(ops@ =~= plan_of(*action));
    ops
}

/// The operations that take a mount back: the mount directory is opened anew, now leading to the
/// mounted root.
pub fn rollback_plan() -> (ops: Vec<HelperOp>)
    ensures
        ops@ == seq![HelperOp::OpenTarget] + unmount_list(),
{
    let mut ops: Vec<HelperOp> = Vec::new();
    ops.push(HelperOp::OpenTarget);
    push_unmount(&mut ops);
    assert(ops@ =~= seq![HelperOp::OpenTarget] + unmount_list());
    ops
}

/// Whether `op` stands in `ops` before `index`.
pub open spec fn stands_before(ops: Seq<HelperOp>, op: HelperOp, index: int) -> bool {
    exists|i: int| 0 <= i < index && #[trigger] ops[i] == op
}

/// Whether a failure of the operation at `failed` is followed by taking the mount back: there is
/// a mount, and the mount table was read since. Where the table itself cannot be read, the mount
/// is left as it is.
pub open spec fn owes_rollback(ops: Seq<HelperOp>, failed: int) -> bool {
    exists|i: int|
        0 <= i < failed && #[trigger] ops[i] == HelperOp::ReadMounts && stands_before(
            ops,
            HelperOp::Mount,
            i,
        )
}

/// Whether a failure of the operation at `failed` is followed by taking the mount back.
pub fn needs_rollback(ops: &Vec<HelperOp>, failed: usize) -> (owed: bool)
    requires
        failed < ops@.len(),
    ensures
        owed == owes_rollback(ops@, failed as int),
{
    let mut mounted = false;
    let mut i: usize = 0;
    while i < failed
        invariant
            i <= failed < ops@.len(),
            mounted == stands_before(ops@, HelperOp::Mount, i as int),
            !owes_rollback(ops@, i as int),
        decreases failed - i,
    {
        if ops[i] == HelperOp::Mount {
            assert(ops@[i as int] == HelperOp::Mount);
            mounted = true;
        } else if ops[i] == HelperOp::ReadMounts && mounted {
            assert(ops@[i as int] == HelperOp::ReadMounts);
            return true;
        }
        i = i + 1;
    }
    false
}

/// Law: nothing is mounted before the directory, the backing, the device and its owner and the
/// mount directory were looked at, and before neither was found mounted.
pub proof fn law_mount_is_guarded(id: u32, name: String, index: int)
    requires
        0 <= index < plan_of(Action::Mount(id, name)).len(),
        plan_of(Action::Mount(id, name))[index] == HelperOp::Mount,
    ensures
        ({
            let ops = plan_of(Action::Mount(id, name));
            &&& stands_before(ops, HelperOp::OpenParent, index)
            &&& stands_before(ops, HelperOp::OpenBacking, index)
            &&& stands_before(ops, HelperOp::CheckOwner, index)
            &&& stands_before(ops, HelperOp::OpenDevice, index)
            &&& stands_before(ops, HelperOp::CheckClass, index)
            &&& stands_before(ops, HelperOp::RequireUnmounted, index)
            &&& stands_before(ops, HelperOp::CheckTarget, index)
        }),
{
    let ops = plan_of(Action::Mount(id, name));
    assert(index == 11);
    assert(ops[0] == HelperOp::OpenParent);
    assert(ops[1] == HelperOp::OpenBacking);
    assert(ops[3] == HelperOp::CheckOwner);
    assert(ops[4] == HelperOp::OpenDevice);
    assert(ops[6] == HelperOp::CheckClass);
    assert(ops[9] == HelperOp::RequireUnmounted);
    assert(ops[10] == HelperOp::CheckTarget);
}

/// Law: a failure is followed by taking the mount back exactly where it comes after the reading of
/// the mount table behind the mount, and only an action that mounts can owe that.
pub proof fn law_rollback_is_owed_after_the_mount(action: Action, failed: int)
    requires
        0 <= failed < plan_of(action).len(),
    ensures
        owes_rollback(plan_of(action), failed) == (action is Mount && failed > 12),
        action is Mount ==> plan_of(action)[11] == HelperOp::Mount && plan_of(action)[12]
            == HelperOp::ReadMounts,
{
    let ops = plan_of(action);
    if action is Mount {
        assert(ops[11] == HelperOp::Mount);
        assert(ops[12] == HelperOp::ReadMounts);
        assert(stands_before(ops, HelperOp::Mount, 12));
    }
    assert forall|i: int| 0 <= i < ops.len() && #[trigger] ops[i] == HelperOp::Mount implies
        action is Mount && i == 11 by {
    }
}

/// Law: a fixture is unmounted only after the mounted file system was found to be the device's
/// alone and the directory that was opened to be its root.
pub proof fn law_unmount_is_guarded(id: u32, name: String, index: int)
    requires
        0 <= index < plan_of(Action::Unmount(id, name)).len(),
        plan_of(Action::Unmount(id, name))[index] == HelperOp::Unmount,
    ensures
        ({
            let ops = plan_of(Action::Unmount(id, name));
            &&& stands_before(ops, HelperOp::CheckOwner, index)
            &&& stands_before(ops, HelperOp::RequireMounted, index)
            &&& stands_before(ops, HelperOp::CheckDescriptor, index)
        }),
{
    let ops = plan_of(Action::Unmount(id, name));
    assert(index == 12);
    assert(ops[3] == HelperOp::CheckOwner);
    assert(ops[9] == HelperOp::RequireMounted);
    assert(ops[10] == HelperOp::CheckDescriptor);
}

/// Law: what follows a mount: the table is read, the device is demanded to be mounted there alone,
/// the mounted root is opened and the work directory is made; and what follows an unmount: the
/// table is read again and nothing may be mounted there any more. A rollback opens the directory
/// anew and then unmounts like any other.
pub proof fn law_mounts_are_looked_at_again(id: u32, name: String)
    ensures
        ({
            let mount = plan_of(Action::Mount(id, name));
            let unmount = plan_of(Action::Unmount(id, name));
            &&& mount.len() == 16
            &&& mount.skip(11) == seq![
                HelperOp::Mount,
                HelperOp::ReadMounts,
                HelperOp::RequireMounted,
                HelperOp::OpenRoot,
                HelperOp::MakeWork,
            ]
            &&& mount[8] is ReadMounts && mount[9] is RequireUnmounted && mount[10] is CheckTarget
            &&& unmount.len() == 15
            &&& unmount.skip(8) == seq![
                HelperOp::ReadMounts,
                HelperOp::RequireMounted,
                HelperOp::CheckDescriptor,
                HelperOp::CloseTarget,
                HelperOp::Unmount,
                HelperOp::ReadMounts,
                HelperOp::RequireUnmounted,
            ]
            &&& mount.take(8) == unmount.take(8)
            &&& mount.take(8) == seq![
                HelperOp::OpenParent,
                HelperOp::OpenBacking,
                HelperOp::OpenClass,
                HelperOp::CheckOwner,
                HelperOp::OpenDevice,
                HelperOp::CheckOwner,
                HelperOp::CheckClass,
                HelperOp::OpenTarget,
            ]
            &&& plan_of(Action::Check).len() == 0
        }),
{
    let mount = plan_of(Action::Mount(id, name));
    let unmount = plan_of(Action::Unmount(id, name));
    assert(mount.skip(11) =~= seq![
        HelperOp::Mount,
        HelperOp::ReadMounts,
        HelperOp::RequireMounted,
        HelperOp::OpenRoot,
        HelperOp::MakeWork,
    ]);
    assert(unmount.skip(8) =~= unmount_list());
    assert(mount.take(8) =~= open_list());
    assert(unmount.take(8) =~= open_list());
}

} // verus!
