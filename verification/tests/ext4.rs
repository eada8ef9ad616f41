//! The ext4 lab and its workload.

use block_storage::lab::error::{LabError, LabErrorKind};
use block_storage::lab::device::PollStep;
use block_storage::lab::ext4::{
    after_stop, capture_text, check_daemon_errors, command_result, deadline, field,
    filesystem_command, format_command, helper_command, limits_line, outputs, preflight_command,
    readiness_path, require_binary, require_capture, require_clean_stop, require_control,
    require_field, require_helper, require_manifest, require_mount_directory, require_mount_id,
    require_no_command, require_no_mount_below, require_normal_user, require_nothing_alive,
    require_own_entry, require_removed, require_running, require_same_helper, require_stopped,
    require_unchanged_mount_directory, require_workload_reaped, start_line, start_step, steps,
    validate_backing, validate_runtime_directory, workload_command, Device, PreflightStep,
    Recovery, RecoveryEvent, RecoveryPhase, StartStep, Step, PREFLIGHT, REPETITIONS,
};
use block_storage::lab::node::{FileIdentity, NodeFacts, NodeKind};
use block_storage::lab::process::{Exit, Outcome};
use block_storage::lab::workload::{
    binary_line, expected_renamed, manifest, manifest_of, pattern, populate, require_empty,
    require_ublk_device, require_worker_directory, verify, FileFacts, FileOp, WorkloadFacts,
    FINAL_BYTES, OVERWRITE_BYTE, OVERWRITE_BYTES, OVERWRITE_OFFSET, RETAINED_BYTES, STABLE_BYTES,
};
use block_storage::mounts::{parse_mounts, BACKING_BYTES};
use std::collections::BTreeMap;
use xxhash_rust::xxh3::xxh3_64;

const HERE: FileIdentity = FileIdentity {
    device: 5,
    inode: 60,
};
const THERE: FileIdentity = FileIdentity {
    device: 5,
    inode: 61,
};

fn other(message: &str) -> LabError {
    LabError {
        kind: LabErrorKind::Other,
        message: message.to_string(),
    }
}

fn node(kind: NodeKind, identity: FileIdentity) -> NodeFacts {
    NodeFacts {
        kind,
        uid: 1000,
        gid: 1000,
        mode: 0o700,
        links: 1,
        len: 0,
        identity,
        number: (259, 7),
    }
}

fn exit(code: i32) -> Exit {
    Exit {
        code: Some(code),
        signal: None,
        text: format!("exit status: {code}"),
    }
}

#[test]
fn acceptance_plan_has_four_unmounted_checks_and_clean_restart() {
    assert_eq!(REPETITIONS, 3);
    let plan = steps();
    assert_eq!(
        plan.iter()
            .filter(|step| matches!(step, Step::Format))
            .count(),
        1
    );
    let mut mounted = false;
    let mut started = false;
    let mut checks = Vec::new();
    let mut starts = 0;
    let mut verifications = 0;
    for step in plan {
        match step {
            Step::Start => {
                assert!(!started && !mounted);
                started = true;
                starts += 1;
            }
            Step::Stop => {
                assert!(started && !mounted);
                started = false;
            }
            Step::Mount => {
                assert!(started && !mounted);
                mounted = true;
            }
            Step::Unmount => {
                assert!(started && mounted);
                mounted = false;
            }
            Step::Check(number) => {
                assert!(started && !mounted);
                checks.push(number);
            }
            Step::Verify => {
                assert!(mounted);
                verifications += 1;
            }
            Step::Populate => assert!(mounted),
            Step::Format => assert!(!started && !mounted),
            Step::Mkfs => assert!(started && !mounted),
        }
    }
    assert_eq!(checks, [1, 2, 3, 4]);
    assert_eq!(starts, 2);
    assert_eq!(verifications, 2);
    assert!(!started && !mounted);
}

#[test]
fn readiness_never_accepts_arbitrary_devices_or_extra_output() {
    assert_eq!(readiness_path("/dev/ublkb7\n").unwrap().id().get(), 7);
    for text in [
        "/dev/sda\n",
        "/dev/ublkb7",
        "/dev/ublkb7\nextra\n",
        "/dev/ublkb7\n\n",
        "/dev/ublkb../sda\n",
    ] {
        assert!(readiness_path(text).is_err());
    }
}

#[test]
fn filesystem_commands_use_defaults_and_read_only_checks() {
    let path = "/dev/ublkb17";
    let mkfs = filesystem_command(Step::Mkfs, path);
    assert_eq!(mkfs.program, "mkfs.ext4");
    assert_eq!(mkfs.args, [path]);
    let check = filesystem_command(Step::Check(1), path);
    assert_eq!(check.program, "e2fsck");
    assert_eq!(check.args, ["-f", "-n", "/dev/ublkb17"]);
    assert_eq!(Step::Check(1).name(), format!("{:?}", Step::Check(1)));
    assert_eq!(Step::Mkfs.name(), format!("{:?}", Step::Mkfs));
}

#[test]
fn suite_deadline_prevents_spawning_another_command() {
    let error = deadline(10, 2, 10).unwrap_err();
    assert_eq!(error.kind, LabErrorKind::TimedOut);
    assert_eq!(deadline(5, 2, 10), Ok(7));
    assert_eq!(deadline(9, 2, 10), Ok(10));
    assert_eq!(deadline(9, u64::MAX, 10), Ok(10));
}

#[test]
fn failed_and_timed_out_commands_preserve_output_and_reap_children() {
    let failure = command_result(
        "failure",
        Ok(Outcome::Exit(exit(7))),
        Ok(()),
        true,
        "failure-stdout".to_string(),
    );
    assert_eq!(
        failure.unwrap_err().message,
        "failure failed: exit status: 7"
    );
    let timeout = command_result("timeout", Ok(Outcome::Timeout), Ok(()), true, String::new());
    assert_eq!(timeout.unwrap_err().kind, LabErrorKind::TimedOut);
    let late = command_result(
        "late",
        Ok(Outcome::Exit(exit(0))),
        Ok(()),
        false,
        String::new(),
    );
    assert_eq!(
        late.unwrap_err().message,
        "late exceeded command or suite deadline"
    );
    assert_eq!(
        command_result(
            "ok",
            Ok(Outcome::Exit(exit(0))),
            Ok(()),
            true,
            "out".to_string()
        ),
        Ok("out".to_string())
    );
    assert_eq!(
        command_result(
            "x",
            Err(other("wait")),
            Err(other("cleanup")),
            true,
            String::new()
        )
        .unwrap_err()
        .message,
        "cleanup"
    );
    assert!(require_no_command(true).is_err());
    assert!(require_capture(16_777_216).is_ok());
    assert!(require_capture(16_777_217).is_err());
    assert_eq!(
        capture_text("stdout", "/tmp/1", "before-timeout"),
        "--- stdout: /tmp/1 ---\nbefore-timeout\n--- end stdout ---"
    );
}

#[test]
fn outputs_are_numbered() {
    let mut sequence = 0;
    assert_eq!(
        outputs(&mut sequence, "mkfs"),
        ("001-mkfs.stdout".into(), "001-mkfs.stderr".into())
    );
    sequence = 999;
    assert_eq!(outputs(&mut sequence, "x").0, "1000-x.stdout");
    assert_eq!(sequence, 1000);
}

#[test]
fn runtime_preflight_requires_an_existing_private_owned_directory() {
    let private = node(NodeKind::Directory, HERE);
    validate_runtime_directory("/run/ublksrvd", Ok(private), 1000).unwrap();
    assert!(validate_runtime_directory("/run/ublksrvd", Ok(private), 1001).is_err());
    let missing = validate_runtime_directory(
        "/run/missing",
        Err(LabError {
            kind: LabErrorKind::NotFound,
            message: String::new(),
        }),
        1000,
    )
    .unwrap_err();
    assert_eq!(missing.kind, LabErrorKind::NotFound);
    assert!(missing.message.contains("/run/missing is missing"));
    assert!(
        validate_runtime_directory("/run/l", Ok(node(NodeKind::Other, HERE)), 1000).is_err()
    );
    let mut open = private;
    open.mode = 0o777;
    assert!(validate_runtime_directory("/run/ublksrvd", Ok(open), 1000).is_err());
}

#[test]
fn preflight_looks_before_it_runs_anything() {
    assert_eq!(PREFLIGHT[0], PreflightStep::NormalUser);
    assert_eq!(PREFLIGHT.len(), 15);
    let labels: Vec<_> = PREFLIGHT
        .iter()
        .filter_map(|step| preflight_command(*step))
        .map(|(label, command)| (label, command.program))
        .collect();
    assert_eq!(
        labels,
        [
            ("commit", "git".to_string()),
            ("worktree", "git".to_string()),
            ("kernel", "uname".to_string()),
            ("mkfs-version", "mkfs.ext4".to_string()),
            ("e2fsck-version", "e2fsck".to_string()),
            ("helper-preflight", "sudo".to_string()),
        ]
    );
    assert!(require_normal_user(0).is_err());
    assert!(require_normal_user(1).is_ok());
    assert!(require_binary(node(NodeKind::File, HERE)).is_ok());
    assert!(require_binary(node(NodeKind::Directory, HERE)).is_err());
    assert!(require_control(Ok(node(NodeKind::CharDevice, HERE))).is_ok());
    assert!(require_control(Ok(node(NodeKind::File, HERE))).is_err());
    assert!(require_control(Err(other("no")))
        .unwrap_err()
        .message
        .starts_with("AWAITING OPERATOR VALIDATION: /dev/ublk-control"));
    let mut helper = node(NodeKind::File, HERE);
    assert!(require_helper(Ok(helper)).is_err());
    helper.uid = 0;
    helper.mode = 0o755;
    assert!(require_helper(Ok(helper)).is_ok());
    assert!(require_same_helper(false).is_err());
}

#[test]
fn device_must_stay_the_recorded_one() {
    let read = |class, number: (u32, u32)| {
        let mut facts = node(NodeKind::BlockDevice, HERE);
        facts.number = number;
        Device::read(
            "/dev/ublkb7".parse().unwrap(),
            Ok(class),
            Ok(facts),
            Ok(HERE),
        )
    };
    let device = read(THERE, (259, 7)).unwrap();
    assert!(device.validate(read(THERE, (259, 7))).is_ok());
    assert!(device.validate(read(HERE, (259, 7))).is_err());
    assert!(device.validate(read(THERE, (259, 8))).is_err());
    assert_eq!(
        Device::read(
            "/dev/ublkb7".parse().unwrap(),
            Ok(HERE),
            Ok(node(NodeKind::BlockDevice, HERE)),
            Ok(THERE),
        )
        .unwrap_err()
        .message,
        "device node changed while opening it"
    );
    assert!(require_running(Some(Ok(false)), true).is_ok());
    assert_eq!(
        require_running(None, true).unwrap_err().message,
        "daemon is absent"
    );
    assert_eq!(
        require_running(Some(Ok(true)), true).unwrap_err().message,
        "daemon exited unexpectedly"
    );
    assert_eq!(
        require_running(Some(Ok(false)), false).unwrap_err().message,
        "device identity is missing"
    );
}

#[test]
fn start_waits_for_one_usable_device() {
    assert!(start_line(Ok(true), Ok(String::new())).is_err());
    assert!(start_line(Ok(false), Ok("/dev/ub".to_string()))
        .unwrap()
        .is_none());
    assert_eq!(
        start_line(Ok(false), Ok("/dev/ublkb3\n".to_string()))
            .unwrap()
            .unwrap()
            .id()
            .get(),
        3
    );
    assert!(matches!(start_step(None, false, false), StartStep::Again));
    assert!(matches!(
        start_step(Some(Err(other("busy"))), false, false),
        StartStep::Again
    ));
    match start_step(Some(Err(other("busy"))), true, true) {
        StartStep::Fail(error) => assert_eq!(error.message, "busy"),
        _ => panic!("the time was up"),
    }
    match start_step(None, false, true) {
        StartStep::Fail(error) => assert_eq!(error.message, "daemon readiness timed out"),
        _ => panic!("the time was up"),
    }
    assert!(require_stopped(false, false).is_ok());
    assert!(require_stopped(false, true).is_err());
    assert_eq!(field(2), ("queue/max_sectors_kb", "4"));
    assert!(require_field(0, "4096\n").is_ok());
    assert_eq!(
        require_field(2, "8\n").unwrap_err().message,
        "unexpected queue/max_sectors_kb: 8\n"
    );
}

#[test]
fn commands_of_the_lab_are_exact() {
    assert_eq!(
        format_command("/x/d", "/tmp/b").args,
        ["format", "/tmp/b", "1073741824", "134217728"]
    );
    assert_eq!(
        helper_command("mount", 7, "my-block-storage-ublk.1.2").args,
        [
            "-n",
            "--",
            "/usr/local/libexec/block-storage-mount",
            "mount",
            "7",
            "my-block-storage-ublk.1.2"
        ]
    );
    assert_eq!(workload_command("/x/lab", true).args, ["ext4-populate"]);
    assert_eq!(workload_command("/x/lab", false).args, ["ext4-verify"]);
    assert_eq!(
        limits_line(60, 600),
        "limits: repetitions=3 per_command_s=60 suite_s=600 volume_bytes=134217728 backing_bytes=1073741824"
    );
}

#[test]
fn clean_stop_leaves_nothing() {
    assert!(require_clean_stop(&Outcome::Exit(exit(0)), "").is_ok());
    assert_eq!(
        require_clean_stop(&Outcome::Timeout, "Timeout").unwrap_err().message,
        "clean daemon stop failed: Timeout"
    );
    assert!(matches!(after_stop("/p", Ok(false), true), PollStep::Done));
    assert!(matches!(after_stop("/p", Ok(true), false), PollStep::Again));
    match after_stop("/p", Ok(true), true) {
        PollStep::Fail(error) => {
            assert_eq!(error.message, "device remains after clean stop: /p");
        }
        _ => panic!("the time was up"),
    }
    assert!(check_daemon_errors("all well\n").is_ok());
    assert!(check_daemon_errors("request rejected: 5\n").is_err());
    assert!(check_daemon_errors("thread 'main' panicked at x\n").is_err());
}

#[test]
fn cleanup_refuses_unexpected_entries_before_removing_backing() {
    let directory = node(NodeKind::Directory, HERE);
    assert!(require_own_entry(node(NodeKind::File, THERE), directory).is_ok());
    assert_eq!(
        require_own_entry(node(NodeKind::Other, THERE), directory)
            .unwrap_err()
            .message,
        "unexpected cleanup entry; preserving the image and evidence"
    );
    assert!(require_nothing_alive(false, false, false, false).is_ok());
    assert!(require_nothing_alive(false, false, false, true).is_err());
    assert!(require_unchanged_mount_directory(HERE, Some(HERE)).is_ok());
    assert!(require_unchanged_mount_directory(HERE, None).is_err());
    assert!(require_removed(false).is_ok());
    assert!(require_removed(true).is_err());
    let table = parse_mounts("42 1 259:7 / /tmp/owned/mount rw - ext4 /dev/ublkb3 rw\n").unwrap();
    assert!(require_no_mount_below(&table, "/tmp/owned").is_err());
    assert!(require_no_mount_below(&table, "/tmp/own").is_ok());
    let mut backing = node(NodeKind::File, HERE);
    backing.len = BACKING_BYTES;
    assert!(validate_backing(Ok(()), Ok(backing), 1000, Some(HERE)).is_ok());
    assert!(validate_backing(Ok(()), Ok(backing), 1000, Some(THERE)).is_err());
    assert!(validate_backing(Ok(()), Ok(backing), 1000, None).is_err());
    assert!(require_mount_directory(directory, Some(HERE)).is_ok());
    assert!(require_mount_directory(directory, Some(THERE)).is_err());
    assert!(require_mount_id(4, None).is_ok());
    assert!(require_mount_id(4, Some(5)).is_err());
    assert!(require_workload_reaped(true).is_err());
}

#[test]
fn recovery_unmounts_before_it_stops() {
    let mut recovery = Recovery::new(true, true, true, true);
    assert_eq!(recovery.phase, RecoveryPhase::CleanCommand);
    recovery.advance(RecoveryEvent::Done(Ok(())));
    recovery.advance(RecoveryEvent::Answer(Ok(true)));
    assert_eq!(recovery.phase, RecoveryPhase::Unmount);
    recovery.advance(RecoveryEvent::Done(Ok(())));
    assert_eq!(recovery.phase, RecoveryPhase::Stop);
    recovery.advance(RecoveryEvent::Done(Ok(())));
    recovery.advance(RecoveryEvent::Done(Ok(())));
    assert_eq!(recovery.phase, RecoveryPhase::Finished);
    assert!(recovery.result().is_ok());

    let mut recovery = Recovery::new(false, true, true, false);
    recovery.advance(RecoveryEvent::Answer(Ok(true)));
    assert_eq!(
        recovery.result().unwrap_err().message,
        "unrecorded mount appeared; preserving daemon"
    );

    let mut recovery = Recovery::new(false, true, false, false);
    assert_eq!(recovery.phase, RecoveryPhase::DaemonEnded);
    recovery.advance(RecoveryEvent::Answer(Ok(false)));
    assert_eq!(
        recovery.result().unwrap_err().message,
        "daemon identity was not established; preserving process and image"
    );
}

fn facts(content: Vec<u8>) -> FileFacts {
    let mut file = node(NodeKind::File, HERE);
    file.len = content.len() as u64;
    FileFacts {
        node: Ok(file),
        content: Ok(content),
    }
}

fn names(texts: &[&str]) -> Vec<String> {
    texts.iter().map(|text| text.to_string()).collect()
}

/// Carries the operations out on files in memory.
fn carry_out(ops: &[FileOp]) -> BTreeMap<String, Vec<u8>> {
    let mut files: BTreeMap<String, Vec<u8>> = BTreeMap::new();
    for op in ops {
        match op {
            FileOp::MakeDirectory(_) | FileOp::SyncDirectory(_) => {}
            FileOp::Create(path, content) => {
                assert!(files.insert(path.to_string(), content.clone()).is_none());
            }
            FileOp::Overwrite(path) => files.get_mut(*path).unwrap()
                [OVERWRITE_OFFSET..OVERWRITE_OFFSET + OVERWRITE_BYTES]
                .fill(OVERWRITE_BYTE),
            FileOp::Rename(from, to) => {
                let content = files.remove(*from).unwrap();
                files.insert(to.to_string(), content);
            }
            FileOp::SetLength(path, length) => files.get_mut(*path).unwrap().resize(*length, 0),
            FileOp::Remove(path) => {
                files.remove(*path).unwrap();
            }
        }
    }
    files
}

fn workload(files: &BTreeMap<String, Vec<u8>>) -> WorkloadFacts {
    let entries = |directory: &str| {
        Ok(files
            .keys()
            .filter_map(|path| path.strip_prefix(directory))
            .map(str::to_string)
            .collect::<Vec<_>>())
    };
    WorkloadFacts {
        root: "/tmp/x/mount/work".to_string(),
        root_entries: Ok(names(&["b", "a"])),
        a: Ok(node(NodeKind::Directory, HERE)),
        b: Ok(node(NodeKind::Directory, HERE)),
        a_entries: entries("a/"),
        b_entries: entries("b/"),
        stable: facts(files["a/stable"].clone()),
        renamed: facts(files["b/renamed"].clone()),
    }
}

#[test]
fn workload_verifies_exact_contents_and_rejects_corruption() {
    let files = carry_out(&populate());
    verify(workload(&files)).unwrap();
    assert!(require_empty(false).is_err());

    let mut zeroed = files.clone();
    zeroed.insert("b/renamed".to_string(), vec![0; FINAL_BYTES]);
    assert_eq!(
        verify(workload(&zeroed)).unwrap_err().message,
        "content mismatch: /tmp/x/mount/work/b/renamed"
    );
    zeroed.insert("b/renamed".to_string(), expected_renamed());
    verify(workload(&zeroed)).unwrap();
    zeroed.insert("a/deleted".to_string(), b"unexpected".to_vec());
    assert_eq!(
        verify(workload(&zeroed)).unwrap_err().message,
        "unexpected directory entries in /tmp/x/mount/work/a"
    );
    let mut linked = workload(&files);
    linked.stable.node = Ok(node(NodeKind::Other, HERE));
    assert_eq!(
        verify(linked).unwrap_err().message,
        "wrong type or size: /tmp/x/mount/work/a/stable"
    );
    let mut replaced = workload(&files);
    replaced.b = Ok(node(NodeKind::File, HERE));
    assert_eq!(
        verify(replaced).unwrap_err().message,
        "workload directory was replaced"
    );
    let mut crowded = workload(&files);
    crowded.root_entries = Ok(names(&["a", "b", "c"]));
    assert!(verify(crowded).is_err());
}

#[test]
fn manifest_tells_sizes_and_hashes() {
    let stable: Vec<u8> = (0..STABLE_BYTES)
        .map(|index| ((index * 31 + index / 4096) % 251) as u8)
        .collect();
    assert_eq!(pattern(STABLE_BYTES), stable);
    let mut renamed = stable[..RETAINED_BYTES].to_vec();
    renamed[OVERWRITE_OFFSET..OVERWRITE_OFFSET + OVERWRITE_BYTES].fill(0xa7);
    renamed.resize(FINAL_BYTES, 0);
    assert_eq!(expected_renamed(), renamed);
    let expected = format!(
        "a/stable bytes=262144 xxh3={:016x}\nb/renamed bytes=70001 xxh3={:016x}\nabsent: a/payload a/deleted\n",
        xxh3_64(&stable),
        xxh3_64(&renamed)
    );
    assert_eq!(manifest(), expected);
    assert_eq!(manifest_of(xxh3_64(&stable), xxh3_64(&renamed)), expected);
    assert!(require_manifest(&expected).is_ok());
    assert!(require_manifest("").is_err());
    assert_eq!(
        binary_line("/x/lab", &vec![]),
        "binary: /x/lab bytes=0 xxh3=2d06800538d394c2"
    );
}

#[test]
fn worker_writes_only_in_the_lab_mount() {
    assert!(require_worker_directory("/tmp/my-block-storage-ublk.1.2/mount/work").is_ok());
    for path in [
        "/tmp/my-block-storage-ublk.1.2/mount",
        "/home/my-block-storage-ublk.1.2/mount/work",
        "/tmp/other/mount/work",
        "/tmp/x/my-block-storage-ublk.1.2/mount/work",
    ] {
        assert_eq!(
            require_worker_directory(path).unwrap_err().message,
            "internal worker requires the lab-owned ext4 work directory"
        );
    }
    assert_eq!(
        require_worker_directory("/").unwrap_err().message,
        "missing mount parent"
    );
    assert_eq!(
        require_worker_directory("/work").unwrap_err().message,
        "missing fixture parent"
    );
    assert!(require_ublk_device("ublkb12").is_ok());
    for name in ["ublkb", "sda", "ublkb1p1"] {
        assert!(require_ublk_device(name).is_err());
    }
}
