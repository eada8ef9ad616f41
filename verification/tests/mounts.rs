//! The mount table and the privileged mount helper.

use block_storage::lab::error::{LabError, LabErrorKind};
use block_storage::lab::node::{FileIdentity, NodeFacts, NodeKind};
use block_storage::mount_helper::{
    after_creating_work_directory, check_class_unchanged, check_device_node,
    check_existing_work_directory, check_fixture_backing, check_fixture_parent, check_helper_lock,
    check_line, check_mount_descriptor, check_mount_target, check_mounted_root,
    check_new_work_directory, fixture_path, invoking_user, mount_setup_failure, parse_args,
    validate_device_parameters, Action, WorkStep, UNPRIVILEGED_DEVICE,
};
use block_storage::mounts::{
    owned_name, parse_mount, parse_mounts, require_mounted, require_unmounted, BACKING_BYTES,
    VOLUME_BYTES,
};

fn args(texts: &[&str]) -> Vec<String> {
    texts.iter().map(|text| text.to_string()).collect()
}

fn node(kind: NodeKind, uid: u32, mode: u32) -> NodeFacts {
    NodeFacts {
        kind,
        uid,
        gid: uid,
        mode,
        links: 1,
        len: 0,
        identity: FileIdentity {
            device: 11,
            inode: 22,
        },
        number: (0, 0),
    }
}

fn other(message: &str) -> LabError {
    LabError {
        kind: LabErrorKind::Other,
        message: message.to_string(),
    }
}

#[test]
fn mount_checks_reject_wrong_source_aliases_and_nested_mounts() {
    let line = "42 1 259:7 / /tmp/owned/mount rw - ext4 /dev/ublkb3 rw\n";
    let table = parse_mounts(line).unwrap();
    let target = "/tmp/owned/mount";
    assert_eq!(require_mounted(&table, (259, 7), target).unwrap(), 42);
    assert!(require_unmounted(&table, (259, 7), target).is_err());
    assert!(require_mounted(&table, (259, 8), target).is_err());
    for other in [
        "43 1 259:7 / /elsewhere rw - ext4 /dev/ublkb3 rw\n",
        "43 42 0:8 / /tmp/owned/mount/nested rw - tmpfs tmpfs rw\n",
        line,
    ] {
        let table = parse_mounts(&format!("{line}{other}")).unwrap();
        assert!(require_mounted(&table, (259, 7), target).is_err());
    }
    assert!(require_unmounted(&Vec::new(), (259, 7), target).is_ok());
    assert!(require_mounted(&Vec::new(), (259, 7), target).is_err());
    for changed in [
        line.replace(" / /tmp", " /subdir /tmp"),
        line.replace("ext4", "xfs"),
    ] {
        assert!(require_mounted(&parse_mounts(&changed).unwrap(), (259, 7), target).is_err());
    }
}

#[test]
fn parses_mountinfo_escapes_and_rejects_malformed_records() {
    let table = parse_mounts("1 0 8:1 / /with\\040space rw shared:1 - ext4 /dev/a rw").unwrap();
    assert_eq!(table[0].target, "/with space");
    for line in [
        "",
        "bad",
        "1 0 8:1 / /bad\\ rw - ext4 a rw",
        "x 0 8:1 / / rw - ext4 a rw",
    ] {
        assert!(parse_mount(line).is_err());
    }
}

#[test]
fn mount_refusals_are_told_apart() {
    let error = parse_mount("bad").unwrap_err();
    assert_eq!(error.kind, LabErrorKind::InvalidData);
    assert_eq!(error.message, "invalid mountinfo record");
    let mount = parse_mount("7 1 8:1 /a\\134b /t\\011x\\012 rw - tmpfs none rw").unwrap();
    assert_eq!(mount.id, 7);
    assert_eq!(mount.device, (8, 1));
    assert_eq!(mount.root, "/a\\b");
    assert_eq!(mount.target, "/t\tx\n");
    assert_eq!(mount.filesystem, "tmpfs");
    let table = vec![mount];
    assert_eq!(
        require_unmounted(&table, (8, 1), "/x").unwrap_err().message,
        "device or owned mount directory is already mounted"
    );
    assert_eq!(
        require_mounted(&table, (8, 2), "/x").unwrap_err().message,
        "missing, stacked, nested, or aliased mount; refusing operation"
    );
    assert_eq!(
        require_mounted(&table, (8, 1), "/x").unwrap_err().message,
        "mount source, root, target, or filesystem differs from recorded ext4 device"
    );
    // A name that only starts alike lies elsewhere.
    assert!(require_unmounted(&table, (9, 9), "/t").is_ok());
}

#[test]
fn only_generated_directory_names_are_accepted() {
    assert!(owned_name("my-block-storage-ublk.12.0"));
    for name in [
        "/tmp/my-block-storage-ublk.12.0",
        "../mount",
        "my-block-storage-ublk.12.0/mount",
        "my-block-storage-ublk..0",
        "my-block-storage-ublk.12.0.1",
    ] {
        assert!(!owned_name(name));
    }
}

#[test]
fn helper_requires_kernel_ownership_unprivileged_flag_and_exact_geometry() {
    let flags = UNPRIVILEGED_DEVICE;
    let sectors = VOLUME_BYTES / 512;
    validate_device_parameters(1000, flags, 12, sectors, 1000).unwrap();
    assert!(validate_device_parameters(1001, flags, 12, sectors, 1000).is_err());
    assert!(validate_device_parameters(1000, 0, 12, sectors, 1000).is_err());
    assert!(validate_device_parameters(1000, flags, 9, sectors, 1000).is_err());
    assert!(validate_device_parameters(1000, flags, 12, sectors + 8, 1000).is_err());
    assert_eq!(
        validate_device_parameters(1000, flags, 9, sectors, 1000)
            .unwrap_err()
            .message,
        "ublk geometry differs from the ext4 fixture"
    );
}

#[test]
fn helper_rejects_paths_options_and_arbitrary_device_names() {
    assert_eq!(parse_args(&args(&["check"])).unwrap(), Action::Check);
    assert_eq!(
        parse_args(&args(&["mount", "7", "my-block-storage-ublk.12.0"])).unwrap(),
        Action::Mount(7, "my-block-storage-ublk.12.0".into())
    );
    for texts in [
        vec!["mount", "/dev/sda", "my-block-storage-ublk.12.0"],
        vec!["mount", "7", "/tmp/anything"],
        vec!["unmount", "7", "../../etc"],
        vec!["mount", "7", "my-block-storage-ublk.12.0", "-o", "suid"],
        vec!["check", "extra"],
    ] {
        assert!(parse_args(&args(&texts)).is_err());
    }
}

#[test]
fn helper_device_numbers_fit_the_driver() {
    let name = "my-block-storage-ublk.1.2";
    assert_eq!(
        parse_args(&args(&["unmount", "2147483647", name])).unwrap(),
        Action::Unmount(2147483647, name.into())
    );
    let error = parse_args(&args(&["unmount", "2147483648", name])).unwrap_err();
    assert_eq!(error.kind, LabErrorKind::InvalidInput);
    assert_eq!(
        error.message,
        "usage: /usr/local/libexec/block-storage-mount check | mount <ublk-id> <owned-directory-name> | unmount <ublk-id> <owned-directory-name>"
    );
    assert!(parse_args(&args(&["mount", "+7", name])).is_err());
    assert!(parse_args(&args(&[])).is_err());
}

#[test]
fn helper_runs_for_a_normal_user_only() {
    assert_eq!(invoking_user(0, Ok(1000), Ok(100)).unwrap(), (1000, 100));
    assert_eq!(
        invoking_user(1, Ok(1000), Ok(100)).unwrap_err().kind,
        LabErrorKind::PermissionDenied
    );
    assert_eq!(
        invoking_user(0, Ok(0), Ok(100)).unwrap_err().message,
        "helper requires a non-root sudo caller"
    );
    assert_eq!(
        invoking_user(0, Ok(1), Err(other("no gid"))).unwrap_err().message,
        "no gid"
    );
    assert_eq!(
        check_line(1000),
        "block-storage-mount protocol=1 uid=1000"
    );
}

#[test]
fn helper_checks_every_node_it_touches() {
    assert_eq!(
        fixture_path("my-block-storage-ublk.1.2"),
        "/tmp/my-block-storage-ublk.1.2/mount"
    );
    let private = node(NodeKind::Directory, 7, 0o040700);
    assert!(check_fixture_parent(private, 7).is_ok());
    assert!(check_fixture_parent(private, 8).is_err());
    assert!(check_fixture_parent(node(NodeKind::Directory, 7, 0o755), 7).is_err());

    let mut backing = node(NodeKind::File, 7, 0o600);
    backing.len = BACKING_BYTES;
    assert!(check_fixture_backing(backing, 7).is_ok());
    backing.len = 1;
    assert!(check_fixture_backing(backing, 7).is_err());

    assert!(check_mount_target(private, private, 7, true).is_ok());
    assert!(check_mount_target(private, private, 7, false).is_err());

    let root = node(NodeKind::Directory, 0, 0o755);
    assert!(check_mounted_root(root, 11).is_ok());
    assert!(check_mounted_root(root, 12).is_err());
    assert!(check_mounted_root(node(NodeKind::Directory, 0, 0o775), 11).is_err());

    let work = node(NodeKind::Directory, 0, 0o700);
    assert!(check_new_work_directory(work, root).is_ok());
    assert!(check_new_work_directory(node(NodeKind::Directory, 0, 0o755), root).is_err());
    assert!(check_existing_work_directory(private, root, 7, 7).is_ok());
    assert!(check_existing_work_directory(private, root, 7, 8).is_err());

    let lock = node(NodeKind::File, 0, 0o600);
    assert!(check_helper_lock(lock).is_ok());
    let mut linked = lock;
    linked.links = 2;
    assert!(check_helper_lock(linked).is_err());

    let mut device = node(NodeKind::BlockDevice, 0, 0o660);
    device.number = (259, 7);
    assert!(check_device_node(device, "259:7\n").is_ok());
    assert!(check_device_node(device, "259:70\n").is_err());
    device.kind = NodeKind::File;
    assert!(check_device_node(device, "259:7\n").is_err());

    let here = FileIdentity {
        device: 1,
        inode: 2,
    };
    let there = FileIdentity {
        device: 1,
        inode: 3,
    };
    assert!(check_class_unchanged(here, here).is_ok());
    assert!(check_class_unchanged(here, there).is_err());
}

#[test]
fn helper_compares_the_open_descriptor_with_the_mount_table() {
    assert!(check_mount_descriptor("pos:\t0\nmnt_id:\t42\n", 42).is_ok());
    assert!(check_mount_descriptor("pos:\t0\nmnt_id:\t420\n", 42).is_err());
    assert!(check_mount_descriptor("", 42).is_err());
}

#[test]
fn helper_makes_or_inspects_the_work_directory() {
    assert!(matches!(
        after_creating_work_directory(Ok(())),
        WorkStep::HandOver
    ));
    assert!(matches!(
        after_creating_work_directory(Err(LabError {
            kind: LabErrorKind::AlreadyExists,
            message: String::new(),
        })),
        WorkStep::Inspect
    ));
    assert!(matches!(
        after_creating_work_directory(Err(other("read-only"))),
        WorkStep::Fail(_)
    ));
    assert_eq!(
        mount_setup_failure(&other("bad"), "Ok(())", "/tmp/x/mount").message,
        "mount setup failed: bad; rollback: Ok(()); fixture=/tmp/x/mount"
    );
}
