//! The decisions of the lab.

use block_storage::lab::campaign::{
    announcement, execute, pass_line, Campaign, CampaignStep, Held, LabStep,
};
use block_storage::lab::cleanup::{
    CleanupProgress, ErrorCleanup, ErrorEvent, ErrorPhase, Leftovers,
};
use block_storage::lab::command::CommandLine;
use block_storage::lab::config::{from_env, parse_args, EnvValues, Mode, Span};
use block_storage::lab::device::{
    after_silence, after_validation, device_is_absent, early_exit, path_is_present,
    readiness_line, require_device_identity, wait_for_disappearance, wait_for_handshake,
    wait_for_remove_after_kill_identity, AfterKillStep, DaemonOutput, DeviceIdentityState,
    PollStep, PresenceFacts, ReadyStep, RemoveAfterKillIdentity, ValidatedDevice,
};
use block_storage::lab::error::{combine_with_cleanup, LabError, LabErrorKind};
use block_storage::lab::evidence::{captured, header, log_name, plain_log_name};
use block_storage::lab::lifecycle::{
    delete_command, format_command, geometry_line, parse_only_command, require_executable,
    require_exhaustion, require_fio_parsed, require_fio_version, require_graceful_stop,
    killed_line, require_killed, require_lock_failure, require_success, result_line, serve_command,
    validate_backing, validate_control_node_with, validate_fio_command, BackingFacts, LOCK_ERROR,
};
use block_storage::lab::node::{FileIdentity, NodeFacts, NodeKind};
use block_storage::lab::process::{
    after_poll, cleanup_after_error, existence_result, reap_available_step, reap_step,
    signal_result, ChildCleanup, ChildGroup, CleanupEvent, CleanupPhase, Exit, Outcome, ReapStep, WaitStep,
};
use block_storage::lab::scenario::{
    all_fio_commands, parse_exhaustion_json, OutputNames, Scenario, Transition, FAILPOINT,
    REPETITIONS, SCENARIOS,
};
use block_storage::lab::suite::{
    format_duration, list_command, parse_test_list, slow_marker, test_command, SuiteAction,
    SuiteRun, TestOutcome,
};
use block_storage::lab::ublk::{
    fio_command, make_owned_dir_name, parse_decimal, parse_device_number,
    validate_device_identity, validate_device_identity_for, validate_sysfs_device_identity,
    validate_sysfs_geometry, CleanEvent, CleanStep, Cleanup, DeviceId, DevicePath, FioOptions,
    FioRw, Geometry, OwnedDirFacts, OwnedEntry, OwnedTempDir, SysfsFacts, BLOCK_BYTES,
};
use block_storage::mounts::{owned_name, VOLUME_BYTES};

const HERE: FileIdentity = FileIdentity {
    device: 5,
    inode: 60,
};
const THERE: FileIdentity = FileIdentity {
    device: 5,
    inode: 61,
};

fn error(kind: LabErrorKind, message: &str) -> LabError {
    LabError {
        kind,
        message: message.to_string(),
    }
}

fn other(message: &str) -> LabError {
    error(LabErrorKind::Other, message)
}

fn missing() -> LabError {
    error(LabErrorKind::NotFound, "gone")
}

fn node(kind: NodeKind, identity: FileIdentity) -> NodeFacts {
    NodeFacts {
        kind,
        uid: 1000,
        gid: 1000,
        mode: 0o600,
        links: 1,
        len: 0,
        identity,
        number: (0, 0),
    }
}

fn exit(code: i32) -> Exit {
    Exit {
        code: Some(code),
        signal: None,
        text: format!("exit status: {code}"),
    }
}

fn killed(signal: i32) -> Exit {
    Exit {
        code: None,
        signal: Some(signal),
        text: format!("signal: {signal}"),
    }
}

fn strings(texts: &[&str]) -> Vec<String> {
    texts.iter().map(|text| text.to_string()).collect()
}

// Command line and limits.

#[test]
fn validates_arguments() {
    assert_eq!(parse_args(&strings(&["lab", "test"])), Ok(Mode::Test));
    assert_eq!(
        parse_args(&strings(&["lab", "engine-crash"])),
        Ok(Mode::EngineCrash)
    );
    assert_eq!(
        parse_args(&strings(&["lab", "ublk-fio"])),
        Ok(Mode::UblkFio)
    );
    for args in [
        vec!["lab"],
        vec!["lab", "unknown"],
        vec!["lab", "test", "extra"],
        vec!["lab", "ext4", "/dev/sda"],
        vec!["lab", "ext4", "/tmp/mount"],
        vec!["lab", "ext4-populate", "/tmp/mount"],
    ] {
        assert!(parse_args(&strings(&args)).is_err());
    }
    assert_eq!(
        parse_args(&strings(&["lab"])),
        Err("usage: lab test | engine-crash | ublk-fio | ext4 | ext4-preflight".to_string())
    );
}

fn values(slow: Option<&str>, per_test: Option<&str>, suite: Option<&str>) -> EnvValues {
    EnvValues {
        slow: slow.map(str::to_string),
        per_test: per_test.map(str::to_string),
        suite: suite.map(str::to_string),
    }
}

#[test]
fn validates_environment_and_defaults() {
    let addable = |seconds: u64| seconds <= i64::MAX as u64;
    let empty = EnvValues::default();
    let test = from_env(Mode::Test, &empty, addable).unwrap();
    assert_eq!(test.per_test, Span::from_secs(15));
    assert_eq!(test.suite, Span::from_secs(55));

    let ext4 = from_env(Mode::Ext4, &empty, addable).unwrap();
    assert_eq!(ext4.per_test, Span::from_secs(60));
    assert_eq!(ext4.suite, Span::from_secs(600));
    assert_eq!(parse_args(&strings(&["lab", "ext4"])), Ok(Mode::Ext4));

    let set = values(Some("0"), Some("7"), Some("8"));
    let configured = from_env(Mode::EngineCrash, &set, addable).unwrap();
    assert_eq!(configured.slow, Span::from_secs(0));
    assert_eq!(configured.per_test, Span::from_secs(7));
    assert_eq!(configured.suite, Span::from_secs(8));

    for set in [
        values(Some("-1"), None, None),
        values(None, Some("0"), None),
        values(None, None, Some("1.5")),
        values(None, None, Some("")),
        values(None, None, Some("18446744073709551615")),
    ] {
        assert!(from_env(Mode::Test, &set, addable).is_err());
    }
}

#[test]
fn spans_are_compared_by_length() {
    assert!(Span::from_millis(1001).longer_than(&Span::from_secs(1)));
    assert!(!Span::from_millis(1000).longer_than(&Span::from_secs(1)));
    assert_eq!(
        Span::from_millis(1234),
        Span {
            secs: 1,
            nanos: 234_000_000
        }
    );
}

// The test suite.

#[test]
fn normal_child() {}

#[test]
fn parses_only_test_entries() {
    assert_eq!(
        parse_test_list("alpha: test\nnoise\nbeta::case: test\n\n2 tests, 0 benchmarks\n"),
        ["alpha", "beta::case"]
    );
}

#[test]
fn classifies_and_formats_timings() {
    assert_eq!(format_duration(Span::from_millis(1234)), "1.234s");
    assert_eq!(slow_marker(Span::from_secs(1), Span::from_secs(1)), "");
    assert_eq!(
        slow_marker(Span::from_millis(1001), Span::from_secs(1)),
        " SLOW(>1s)"
    );
}

fn suite() -> SuiteRun {
    SuiteRun::new(from_env(Mode::Test, &EnvValues::default(), |_| true).unwrap())
}

#[test]
fn suite_passes_after_the_last_group_only() {
    let mut run = suite();
    for group in 0..5 {
        let step = run.listed(true, "one: test\n");
        assert_eq!(step.action, SuiteAction::CheckClock);
        assert_eq!(run.clock_read(false).action, SuiteAction::RunTest);
        let step = run.finished(TestOutcome::Passed, Span::from_millis(12), false);
        let line = step.line.unwrap();
        assert!(!line.error);
        if group == 0 {
            assert_eq!(line.text, "PASS [library] one 0.012s");
        }
        if group == 4 {
            assert_eq!(step.action, SuiteAction::Finish(true));
        } else {
            assert_eq!(step.action, SuiteAction::List);
        }
    }
}

#[test]
fn suite_stops_at_the_first_failure() {
    let mut run = suite();
    let step = run.listed(false, "");
    assert_eq!(step.action, SuiteAction::Finish(false));
    assert!(step.show_output);
    assert_eq!(
        step.line.unwrap().text,
        "FAILED: could not list [library] tests"
    );

    let mut run = suite();
    run.listed(true, "one: test\n");
    let step = run.clock_read(true);
    assert_eq!(step.action, SuiteAction::Finish(false));
    assert_eq!(
        step.line.unwrap().text,
        "FAILED: test suite exceeded 55s deadline"
    );

    let mut run = suite();
    run.listed(true, "one: test\n");
    let step = run.finished(TestOutcome::TimedOut, Span::from_secs(15), false);
    assert_eq!(step.action, SuiteAction::Finish(false));
    assert_eq!(
        step.line.unwrap().text,
        "TIMEOUT [library] one 15.000s (deadline 15s)"
    );

    let mut run = suite();
    run.listed(true, "one: test\n");
    let step = run.finished(
        TestOutcome::Failed("exit status: 101".to_string()),
        Span::from_secs(1),
        false,
    );
    assert_eq!(step.action, SuiteAction::Finish(false));
    assert_eq!(
        step.line.unwrap().text,
        "FAIL [library] one 1.000s (exit status: 101)"
    );
}

#[test]
fn suite_commands_name_the_target_and_the_test() {
    assert_eq!(
        list_command(Mode::Test, 0).args,
        ["test", "--quiet", "--lib", "--", "--list"]
    );
    let command = test_command(Mode::EngineCrash, 4, "a::b");
    assert_eq!(command.program, "cargo");
    assert!(command.args.contains(&"a::b".to_string()));
    assert!(command.args.contains(&"--doc".to_string()));
    assert!(command.args.contains(&"--exact".to_string()));
}

// Devices, geometry and owned directories.

#[test]
fn parses_only_exact_canonical_device_paths() {
    let path: DevicePath = "/dev/ublkb42".parse().unwrap();
    assert_eq!(path.id().get(), 42);
    assert_eq!(path.as_path(), "/dev/ublkb42");
    for invalid in [
        "/dev/ublkb01",
        "/dev/ublkb",
        "/dev/ublkb1 extra",
        "/dev/sda",
    ] {
        assert!(invalid.parse::<DevicePath>().is_err(), "{invalid}");
    }
}

#[test]
fn expected_geometry_matches_the_ublk_acceptance_shape() {
    let geometry = Geometry::expected();
    assert_eq!(geometry.log_start_blocks, 6);
    assert_eq!(geometry.backing_blocks, 70);
    assert_eq!(geometry.volume_bytes(), 262_144);
    assert_eq!(geometry.backing_bytes(), 286_720);
    assert_eq!(geometry.sectors(), 512);
}

fn sysfs(size: &str) -> SysfsFacts {
    SysfsFacts {
        logical_block_size: Ok("4096\n".to_string()),
        size: Ok(size.to_string()),
        class: Ok(node(NodeKind::Directory, HERE)),
    }
}

#[test]
fn validates_parameterized_sysfs_geometry_and_identity() {
    let id: DeviceId = "7".parse().unwrap();
    let identity = validate_sysfs_device_identity(id, sysfs("512\n")).unwrap();
    let path: DevicePath = "/dev/ublkb7".parse().unwrap();
    assert!(validate_device_identity(
        &path,
        Ok(node(NodeKind::File, THERE)),
        Ok("259:7\n".to_string()),
        sysfs("512\n"),
    )
    .is_err());
    assert_eq!(identity, HERE);
    assert_eq!(parse_device_number("259:7\n").unwrap(), (259, 7));
    assert!(parse_device_number("0259:7\n").is_err());
    assert!(
        validate_sysfs_geometry(id, Ok("4096\n".to_string()), Ok("4096\n".to_string())).is_err()
    );
}

#[test]
fn device_nodes_must_have_the_number_that_sysfs_shows() {
    let path: DevicePath = "/dev/ublkb7".parse().unwrap();
    let mut device = node(NodeKind::BlockDevice, THERE);
    device.number = (259, 7);
    assert_eq!(
        validate_device_identity(&path, Ok(device), Ok("259:7\n".to_string()), sysfs("512\n")),
        Ok(HERE)
    );
    assert_eq!(
        validate_device_identity(&path, Ok(device), Ok("259:8\n".to_string()), sysfs("512\n"))
            .unwrap_err()
            .message,
        "ublkb7 node identity is 259:7, expected 259:8"
    );
    assert_eq!(
        validate_device_identity(&path, Ok(device), Ok("259:7\n".to_string()), sysfs("8\n"))
            .unwrap_err()
            .message,
        "ublkb7 geometry is 4096-byte blocks/8 sectors, expected 4096/512"
    );
    assert_eq!(
        validate_device_identity_for(
            &path,
            Ok(device),
            Ok("259:7\n".to_string()),
            sysfs("262144\n"),
            VOLUME_BYTES,
        ),
        Ok(HERE)
    );
    assert_eq!(
        parse_decimal("18446744073709551616").unwrap_err().message,
        "number too large to fit in target type"
    );
    assert!(parse_decimal("01\n").is_err());
}

fn owned_facts(marker: &str) -> OwnedDirFacts {
    let mut directory = node(NodeKind::Directory, HERE);
    directory.mode = 0o040700;
    let mut file = node(
        NodeKind::File,
        FileIdentity {
            device: 5,
            inode: 62,
        },
    );
    file.mode = 0o100600;
    file.len = marker.len() as u64;
    OwnedDirFacts {
        canonical: Ok(true),
        directory: Ok(directory),
        marker: Ok(file),
        marker_text: Ok(marker.to_string()),
        effective_uid: 1000,
    }
}

#[test]
fn owned_directory_requires_its_original_identity_and_marker() {
    let name = make_owned_dir_name(12, 3);
    assert_eq!(name, "my-block-storage-ublk.12.3");
    assert!(owned_name(&name));
    let mut owned = OwnedTempDir::adopt(format!("/tmp/{name}"), HERE);
    assert_eq!(owned.path(), "/tmp/my-block-storage-ublk.12.3");
    assert_eq!(owned.identity(), HERE);
    owned.validate(owned_facts("5:60\n")).unwrap();
    assert!(owned.validate(owned_facts("wrong\n")).is_err());
    let mut moved = owned_facts("5:60\n");
    moved.directory = Ok(node(NodeKind::Directory, THERE));
    assert!(owned.validate(moved).is_err());
    assert!(owned
        .check_entry("/tmp/x/backing.img", node(NodeKind::File, THERE), 1000)
        .is_ok());
    assert!(owned
        .check_entry("/tmp/x/link", node(NodeKind::Other, THERE), 1000)
        .is_err());
    assert!(!owned.cleaned());
    owned.preserve();
    assert!(owned.cleaned());
}

fn entry(name: &str) -> CleanEvent {
    CleanEvent::Entry(Ok(Some(OwnedEntry {
        name: name.to_string(),
        shown: format!("/tmp/owned/{name}"),
    })))
}

fn found(kind: NodeKind) -> CleanEvent {
    CleanEvent::Facts {
        entry: Ok(node(kind, THERE)),
        effective_uid: 1000,
    }
}

fn owned() -> OwnedTempDir {
    OwnedTempDir::adopt("/tmp/my-block-storage-ublk.12.3".to_string(), HERE)
}

#[test]
fn owned_directory_is_removed_entry_by_entry() {
    let mut owned = owned();
    let mut cleanup = Cleanup::begin(&owned);
    assert_eq!(cleanup.awaits(), CleanStep::Validate);
    for (event, next) in [
        // What is not asked for changes nothing.
        (CleanEvent::Removed(Ok(())), CleanStep::Validate),
        (CleanEvent::Directory(owned_facts("5:60\n")), CleanStep::Next),
        (entry(".owned-by-block-storage-lab"), CleanStep::Next),
        (entry("backing.img"), CleanStep::Inspect),
        (found(NodeKind::File), CleanStep::RemoveEntry),
        (CleanEvent::Removed(Ok(())), CleanStep::Next),
        (CleanEvent::Entry(Ok(None)), CleanStep::RemoveMarker),
        (CleanEvent::Removed(Ok(())), CleanStep::RemoveDirectory),
    ] {
        cleanup.advance(&mut owned, event).unwrap();
        assert_eq!(cleanup.awaits(), next);
        assert!(!owned.cleaned());
    }
    cleanup
        .advance(&mut owned, CleanEvent::Removed(Ok(())))
        .unwrap();
    assert_eq!(cleanup.awaits(), CleanStep::Done);
    assert!(owned.cleaned());
    // A second removal asks for nothing.
    assert_eq!(Cleanup::begin(&owned).awaits(), CleanStep::Done);
}

#[test]
fn owned_directory_that_changed_is_not_touched() {
    let mut owned = owned();
    let mut cleanup = Cleanup::begin(&owned);
    let error = cleanup
        .advance(&mut owned, CleanEvent::Directory(owned_facts("5:61\n")))
        .unwrap_err();
    assert_eq!(error.message, "temporary directory marker is invalid");
    assert_eq!(cleanup.awaits(), CleanStep::Done);
    assert!(!owned.cleaned());

    let mut cleanup = Cleanup::begin(&owned);
    cleanup
        .advance(&mut owned, CleanEvent::Directory(owned_facts("5:60\n")))
        .unwrap();
    cleanup.advance(&mut owned, entry("link")).unwrap();
    let error = cleanup
        .advance(&mut owned, found(NodeKind::Other))
        .unwrap_err();
    assert_eq!(
        error.message,
        "refusing to remove unexpected temporary resource /tmp/owned/link"
    );
    assert_eq!(cleanup.awaits(), CleanStep::Done);
    assert!(!owned.cleaned());
}

// fio.

#[test]
fn fio_command_never_saves_verify_state_in_the_caller_directory() {
    let command = fio_command(
        "/dev/ublkb7",
        "verify-state-regression",
        0x1357_9bdf,
        FioRw::Write,
        BLOCK_BYTES,
        0,
        FioOptions {
            verify_only: true,
            ..FioOptions::default()
        },
    );
    assert_eq!(
        command
            .args
            .iter()
            .filter(|arg| arg.starts_with("--verify_state_save="))
            .count(),
        1
    );
    assert!(command.args.iter().any(|arg| arg == "--verify_state_save=0"));
}

#[test]
fn every_exact_command_shape_has_expected_budget_and_seed() {
    let commands = all_fio_commands("/nonexistent/fio-target");
    assert_eq!(commands.len(), 18);
    for command in commands {
        assert_eq!(command.program, "fio");
        assert!(command.args.contains(&"--randseed=74703".to_string()));
        assert!(command.args.contains(&"--direct=1".to_string()));
        assert!(command.args.contains(&"--bs=4096".to_string()));
    }
}

fn assert_command_construction() {
    let daemon = "/x/block-storage-ublk";
    let backing = "/tmp/owned/backing.img";
    let format = format_command(daemon, backing);
    assert_eq!(format.program, daemon);
    assert_eq!(
        format.args,
        ["format", "/tmp/owned/backing.img", "286720", "262144"]
    );
    assert_eq!(
        serve_command(daemon, backing).args,
        ["serve", "/tmp/owned/backing.img", "-1"]
    );
    assert_eq!(delete_command(daemon, 7).args, ["delete", "7"]);
    let fio = Scenario::Sequential.fio_jobs()[0].command("/dev/ublkb7");
    assert!(fio.args.contains(&"--size=65536".to_string()));
    assert!(fio.args.contains(&"--fsync=16".to_string()));
    assert!(fio.args.contains(&"--do_verify=1".to_string()));
}

#[test]
fn tests_command_construction_is_exact_and_bounded() {
    assert_command_construction();
}

#[test]
fn ublk_fio_command_construction_is_exact_and_bounded() {
    assert_command_construction();
    let fio = Scenario::Sequential.fio_jobs()[0].command("/dev/ublkb7");
    let parse = parse_only_command(&fio);
    assert_eq!(parse.program, "fio");
    assert_eq!(parse.args[..2], ["--parse-only", "--warnings-fatal"]);
    assert_eq!(parse.args[2..], fio.args[..]);
}

#[test]
fn only_fio_commands_are_judged_by_fio() {
    let mut command = CommandLine::new("fio");
    command.arg("--name=x");
    assert_eq!(
        validate_fio_command(&command).unwrap().args,
        ["--parse-only", "--warnings-fatal", "--name=x"]
    );
    assert_eq!(
        validate_fio_command(&CommandLine::new("sh")),
        Err(error(LabErrorKind::InvalidInput, "expected an fio command"))
    );
}

#[test]
fn overwrite_patterns_repeat_one_byte() {
    let jobs = Scenario::Overwrite.fio_jobs();
    assert_eq!(jobs.len(), 8);
    for (index, job) in jobs.iter().enumerate() {
        assert_eq!(job.pattern, u32::from_ne_bytes([index as u8 + 1; 4]));
        assert_eq!(job.blocks, 1);
    }
    assert!(jobs[7]
        .command("t")
        .args
        .contains(&"--verify_pattern=0x08080808".to_string()));
}

// Scenarios.

#[test]
fn scenario_count_repetitions_and_write_budgets_are_exact() {
    assert_eq!(SCENARIOS.len(), 7);
    assert_eq!(REPETITIONS, 3);
    assert_eq!(
        SCENARIOS
            .iter()
            .map(|s| s.attempted_writes())
            .collect::<Vec<_>>(),
        [16, 16, 8, 8, 8, 8, 33]
    );
    assert!(SCENARIOS[..6].iter().all(|s| s.successful_writes() <= 16));
    assert_eq!(Scenario::Exhaustion.successful_writes(), 32);
}

#[test]
fn restart_and_fault_transitions_are_explicit() {
    assert_eq!(
        Scenario::GracefulRestart.transitions(),
        &[
            Transition::Start,
            Transition::Workload,
            Transition::GracefulStop,
            Transition::Restart,
            Transition::Verify
        ]
    );
    assert!(Scenario::SigkillRestart
        .transitions()
        .contains(&Transition::RemoveOldDevice));
    assert_eq!(
        Scenario::DescriptorCloseFailpoint.transitions()[3],
        Transition::WaitForFailpoint
    );
}

#[test]
fn output_names_never_reuse_owned_paths() {
    let mut names = OutputNames::default();
    assert_eq!(
        names.daemon(),
        ("daemon.0.stdout".into(), "daemon.0.stderr".into())
    );
    assert_eq!(
        names.daemon(),
        ("daemon.1.stdout".into(), "daemon.1.stderr".into())
    );
    assert_eq!(names.fio(), ("fio.0.stdout".into(), "fio.0.stderr".into()));
    assert_eq!(
        names.command("delete"),
        ("delete.0.stdout".into(), "delete.0.stderr".into())
    );
}

#[test]
fn output_names_differ_in_label_number_and_stream() {
    let mut names = OutputNames::default();
    let mut seen = Vec::new();
    for label in ["a", "a.1", "a.1.stdout", "1", ""] {
        for _ in 0..12 {
            let (out, err) = names.command(label);
            seen.push(out);
            seen.push(err);
        }
    }
    assert!(seen.contains(&"a.1.12.stdout".to_string()));
    let count = seen.len();
    seen.sort();
    seen.dedup();
    assert_eq!(seen.len(), count);
}

#[test]
fn parses_only_required_fio_numeric_fields() {
    let json = r#"{"jobs":[{"job options":{"rw":"write"},"error" : 28, "read":{"io_bytes":0}, "write" : {"io_bytes" : 131072}}]}"#;
    assert_eq!(parse_exhaustion_json(json).unwrap(), (28, 131_072));
    assert!(
        parse_exhaustion_json(r#"{"jobs":[{"error":"28","write":{"io_bytes":131072}}]}"#).is_err()
    );
    assert!(parse_exhaustion_json(r#"{"jobs":[]}"#).is_err());
    assert!(
        parse_exhaustion_json(r#"{"jobs":[{"error":28oops,"write":{"io_bytes":131072}}]}"#)
            .is_err()
    );
}

#[test]
fn fio_report_errors_are_told_apart() {
    for (json, message) in [
        ("{}", "required fio field is missing"),
        (r#"{"jobs":[]}"#, "jobs must contain an object"),
        (r#"{"jobs":[{"error":x,"#, "invalid numeric fio field"),
        (
            r#"{"jobs":[{"error":18446744073709551616,"#,
            "invalid fio number",
        ),
        (r#"{"jobs":[{"error":1}]}"#, "required fio field is missing"),
    ] {
        let error = parse_exhaustion_json(json).unwrap_err();
        assert_eq!(error.kind, LabErrorKind::InvalidData);
        assert_eq!(error.message, message);
    }
    // A key that is only a value does not count.
    assert_eq!(
        parse_exhaustion_json(
            r#"{"x":"jobs","jobs":[ {"error":1,"write":{"io_bytes":2}}]}"#
        )
        .unwrap(),
        (1, 2)
    );
}

#[test]
fn exhaustion_requires_a_full_device_after_all_records() {
    let report = |errno: u64, bytes: u64| {
        format!(r#"{{"jobs":[{{"error":{errno},"write":{{"io_bytes":{bytes}}}}}]}}"#)
    };
    assert!(require_exhaustion(&exit(1), &report(28, 131_072)).is_ok());
    assert_eq!(
        require_exhaustion(&exit(0), &report(28, 131_072))
            .unwrap_err()
            .message,
        "exhaustion fio exit was exit status: 0, expected 1"
    );
    assert_eq!(
        require_exhaustion(&exit(1), &report(5, 131_072))
            .unwrap_err()
            .message,
        "exhaustion result was errno=5 io_bytes=131072, expected errno=28 io_bytes=131072"
    );
}

#[test]
fn campaign_runs_everything_and_proves_the_lock_once() {
    let mut campaign = Campaign::new();
    let mut held = Held {
        directory: false,
        backing: false,
        child: false,
        device: false,
    };
    let mut step = campaign.step();
    let mut locks = 0;
    let mut passes = Vec::new();
    loop {
        match step {
            LabStep::Announce => {
                if passes.is_empty() {
                    assert_eq!(
                        announcement(campaign.current(), campaign.repetition),
                        "=== scenario=sequential repetition=1/3 ==="
                    );
                }
            }
            LabStep::Setup => {
                held.require_fresh().unwrap();
                held.directory = true;
                held.backing = true;
            }
            LabStep::Start { failpoint } => {
                held.require_no_daemon().unwrap();
                assert!(
                    !failpoint || campaign.current() == Scenario::DescriptorCloseFailpoint
                );
                held.child = true;
                held.device = true;
            }
            LabStep::Fio { job } | LabStep::Exhaust { job } => {
                assert!(job < campaign.current().fio_jobs().len());
                assert!(held.child && held.device);
            }
            LabStep::Stop => {
                held.require_daemon().unwrap();
                held.child = false;
                held.device = false;
            }
            LabStep::Kill => held.child = false,
            LabStep::RemoveAfterKill => held.device = false,
            LabStep::ProveLock => locks += 1,
            LabStep::RemoveDirectory => {
                assert!(!held.child && !held.device);
                held.directory = false;
                held.backing = false;
            }
            LabStep::Pass => passes.push(pass_line(campaign.current(), campaign.repetition)),
            LabStep::Terminate | LabStep::AwaitFailpoint | LabStep::ValidateBacking => {}
        }
        match campaign.advance(Ok(())) {
            CampaignStep::Perform(next) => step = next,
            CampaignStep::Done => break,
            CampaignStep::Failed(error) => panic!("{error:?}"),
        }
    }
    assert_eq!(locks, 1);
    assert_eq!(passes.len(), 21);
    assert_eq!(passes[20], "PASS scenario=exhaustion repetition=3");
    assert!(campaign.lock_proven);

    let mut campaign = Campaign::new();
    match campaign.advance(Err(other("no space"))) {
        CampaignStep::Failed(found) => assert_eq!(found.message, "no space"),
        _ => panic!("a failed step ends the run"),
    }
    assert_eq!(execute(Scenario::Exhaustion, false).len(), 11);
    assert_eq!(FAILPOINT, "descriptor-write-complete");
}

// Preflight.

#[test]
fn control_preflight_reports_missing_node_with_operator_command() {
    let path = "/tmp/control-missing/ublk-control";
    let error = validate_control_node_with(path, Err(missing()), |_| unreachable!()).unwrap_err();
    assert_eq!(
        error.message,
        format!(
            "{} is missing; ask an operator to load the ublk driver with: sudo modprobe ublk_drv; no resources created",
            path
        )
    );
    assert_eq!(error.kind, LabErrorKind::NotFound);
}

#[test]
fn control_preflight_reports_wrong_node_type() {
    let path = "/tmp/control-type/ublk-control";
    let error =
        validate_control_node_with(path, Ok(node(NodeKind::File, HERE)), |_| unreachable!())
            .unwrap_err();
    assert_eq!(
        error.message,
        format!(
            "{} has the wrong node type; expected a character device; no resources created",
            path
        )
    );
}

#[test]
fn control_preflight_reports_inaccessible_node_observations_and_remedy() {
    let path = "/dev/null";
    let mut facts = node(NodeKind::CharDevice, HERE);
    facts.mode = 0o020666;
    for (uid, gid) in [(0, 0), (0, 6)] {
        facts.uid = uid;
        facts.gid = gid;
        let found = validate_control_node_with(path, Ok(facts), |_| {
            Err(error(
                LabErrorKind::PermissionDenied,
                "test permission denial",
            ))
        })
        .unwrap_err();

        assert_eq!(found.kind, LabErrorKind::PermissionDenied);
        let owner = match (uid, gid) {
            (0, 0) => "0:0 (root:root)".to_owned(),
            (uid, gid) => format!("{uid}:{gid}"),
        };
        assert_eq!(
            found.message,
            format!(
                "/dev/null is present but inaccessible: observed path=/dev/null mode={:04o} owner={owner}; open read/write failed: test permission denial; the already-built lab binary needs appropriate privilege or an operator-installed udev permission rule; no resources created",
                facts.mode & 0o7777,
            )
        );
    }
}

#[test]
fn control_preflight_accepts_accessible_character_device() {
    validate_control_node_with("/dev/null", Ok(node(NodeKind::CharDevice, HERE)), |_| Ok(()))
        .unwrap();
    let found = validate_control_node_with("/dev/x", Err(other("denied")), |_| unreachable!())
        .unwrap_err();
    assert_eq!(
        found.message,
        "cannot inspect /dev/x: denied; no resources created"
    );
}

#[test]
fn sibling_daemon_must_be_executable() {
    let mut daemon = node(NodeKind::File, HERE);
    daemon.mode = 0o755;
    assert!(require_executable("/x/d", Ok(daemon)).is_ok());
    daemon.mode = 0o644;
    assert_eq!(
        require_executable("/x/d", Ok(daemon)).unwrap_err().message,
        "sibling /x/d is not an executable regular file"
    );
    assert_eq!(
        require_executable("/x/d", Err(missing())).unwrap_err().message,
        "missing sibling executable /x/d: gone"
    );
}

// The backing.

fn backing_facts(len: u64, identity: FileIdentity) -> BackingFacts {
    let mut file = node(NodeKind::File, identity);
    file.len = len;
    BackingFacts {
        directory: Ok(()),
        node: Ok(file),
        directory_device: Ok(5),
        effective_uid: 1000,
        opened: Ok(identity),
    }
}

fn assert_backing_validation() {
    let bytes = Geometry::expected().backing_bytes();
    let path = "/tmp/owned/backing.img";
    let backing =
        validate_backing(path, "/tmp/owned", bytes, None, backing_facts(bytes, HERE)).unwrap();
    backing
        .validate("/tmp/owned", backing_facts(bytes, HERE))
        .unwrap();
    assert!(backing.validate("/tmp/owned", backing_facts(1, HERE)).is_err());
    assert_eq!(
        backing
            .validate("/tmp/owned", backing_facts(bytes, THERE))
            .unwrap_err()
            .message,
        "backing identity changed"
    );
    assert_eq!(
        validate_backing(path, "/tmp/other", bytes, None, backing_facts(bytes, HERE))
            .unwrap_err()
            .message,
        "backing path is not the exact owned path"
    );
    let mut swapped = backing_facts(bytes, HERE);
    swapped.opened = Ok(THERE);
    assert_eq!(
        validate_backing(path, "/tmp/owned", bytes, None, swapped)
            .unwrap_err()
            .message,
        "opened backing identity differs from path"
    );
}

#[test]
fn tests_validates_owned_backing_path_identity_and_size() {
    assert_backing_validation();
}

#[test]
fn ublk_fio_validates_owned_backing_path_identity_and_size() {
    assert_backing_validation();
}

// Readiness.

#[test]
fn tests_readiness_polls_fake_roots_and_current_exe_child() {
    assert!(readiness_line(DaemonOutput::Text(String::new()))
        .unwrap()
        .is_none());
    assert!(matches!(after_silence(Ok(None), false), ReadyStep::Again));
    let mut attempts = 0;
    let device = loop {
        let device = readiness_line(DaemonOutput::Text("/dev/ublkb7\n".to_string()))
            .unwrap()
            .unwrap();
        attempts += 1;
        let validation = if attempts < 3 {
            Err(error(LabErrorKind::NotFound, "not ready"))
        } else {
            Ok(HERE)
        };
        match after_validation(validation, false, Ok(None), false) {
            ReadyStep::Ready(class_identity) => {
                break ValidatedDevice {
                    path: device,
                    class_identity,
                };
            }
            ReadyStep::Again => {}
            ReadyStep::Fail(error) => panic!("{error:?}"),
        }
    };
    assert_eq!(device.id(), 7);
    assert_eq!(attempts, 3);
}

#[test]
fn tests_readiness_reports_early_exit_and_timeout() {
    match after_silence(Ok(Some(exit(0))), false) {
        ReadyStep::Fail(error) => {
            assert!(error.message.contains("exited before readiness"));
        }
        _ => panic!("a daemon that ended cannot become ready"),
    }
    match after_silence(Ok(None), true) {
        ReadyStep::Fail(error) => assert_eq!(error.kind, LabErrorKind::TimedOut),
        _ => panic!("the time was up"),
    }
    match after_validation(Err(other("absent")), true, Ok(None), true) {
        ReadyStep::Fail(error) => {
            assert_eq!(error.message, "device readiness timed out: absent");
            assert_eq!(error.kind, LabErrorKind::TimedOut);
        }
        _ => panic!("the time was up"),
    }
    assert_eq!(
        early_exit(&exit(3), &other("absent")).message,
        "daemon exited during device readiness (exit status: 3): absent"
    );
}

#[test]
fn readiness_lines_are_exact() {
    for (output, message) in [
        (DaemonOutput::Bytes(true), "readiness is not UTF-8"),
        (
            DaemonOutput::Text("/dev/ublkb7\nmore".to_string()),
            "daemon stdout is not one exact flushed readiness line",
        ),
        (
            DaemonOutput::Text("/dev/sda\n".to_string()),
            "device path must be exactly /dev/ublkbN",
        ),
    ] {
        assert_eq!(readiness_line(output).unwrap_err().message, message);
    }
    assert!(readiness_line(DaemonOutput::Bytes(false)).unwrap().is_none());
}

// Identity.

fn presence(node: bool, block: bool, class: bool, class_node: FileIdentity) -> PresenceFacts {
    PresenceFacts {
        node: Ok(node),
        block: Ok(block),
        class: Ok(class),
        class_node: Ok(self::node(NodeKind::Directory, class_node)),
    }
}

fn recorded() -> ValidatedDevice {
    ValidatedDevice {
        path: "/dev/ublkb7".parse().unwrap(),
        class_identity: HERE,
    }
}

#[test]
fn device_identity_states_distinguish_match_absence_and_change() {
    let device = recorded();
    assert_eq!(
        device
            .classify_identity(Ok(HERE), presence(true, true, true, HERE))
            .unwrap(),
        DeviceIdentityState::Matching
    );
    assert_eq!(
        device
            .classify_identity(Ok(THERE), presence(true, true, true, THERE))
            .unwrap(),
        DeviceIdentityState::IdentityChanged
    );
    assert_eq!(
        device
            .classify_identity(Err(missing()), presence(false, false, false, HERE))
            .unwrap(),
        DeviceIdentityState::Absent
    );
    assert_eq!(
        device
            .classify_identity(Err(missing()), presence(false, false, true, HERE))
            .unwrap(),
        DeviceIdentityState::StoppedMatching
    );
    assert_eq!(
        device
            .classify_identity(Err(missing()), presence(false, false, true, THERE))
            .unwrap(),
        DeviceIdentityState::IdentityChanged
    );
}

#[test]
fn ambiguous_present_identity_is_not_absence() {
    let error = recorded()
        .classify_identity(
            Err(error(LabErrorKind::InvalidData, "ambiguous")),
            presence(true, false, false, HERE),
        )
        .unwrap_err();
    assert!(error
        .message
        .contains("cannot prove recorded device identity"));
}

#[test]
fn presence_tells_absence_from_failure() {
    assert_eq!(path_is_present(Ok(node(NodeKind::File, HERE))), Ok(true));
    assert_eq!(path_is_present(Err(missing())), Ok(false));
    assert!(path_is_present(Err(other("denied"))).is_err());
    assert_eq!(device_is_absent(Ok(false), Ok(false), Ok(false)), Ok(true));
    assert_eq!(
        device_is_absent(Ok(false), Ok(true), Err(other("unread"))),
        Ok(false)
    );
    assert!(device_is_absent(Ok(false), Ok(false), Err(other("denied"))).is_err());
    match wait_for_disappearance(7, Ok(false), true) {
        PollStep::Fail(error) => {
            assert_eq!(error.message, "recorded ublkb7 did not disappear");
        }
        _ => panic!("the time was up"),
    }
    assert!(matches!(
        wait_for_disappearance(7, Ok(false), false),
        PollStep::Again
    ));
    assert!(matches!(
        wait_for_disappearance(7, Ok(true), true),
        PollStep::Done
    ));
}

#[test]
fn handshake_is_one_whole_line() {
    assert!(matches!(
        wait_for_handshake("/dev/ublkb7\nready\n", "ready", Ok(true), true),
        PollStep::Done
    ));
    match wait_for_handshake("already\n", "ready", Ok(true), false) {
        PollStep::Fail(error) => {
            assert_eq!(error.message, "daemon exited before failpoint handshake");
        }
        _ => panic!("the daemon ended"),
    }
    assert!(matches!(
        wait_for_handshake("", "ready", Ok(false), false),
        PollStep::Again
    ));
}

#[test]
fn killed_devices_are_deleted_only_if_they_are_the_recorded_ones() {
    assert!(matches!(
        wait_for_remove_after_kill_identity(Ok(DeviceIdentityState::Absent), false),
        AfterKillStep::Settled(RemoveAfterKillIdentity::Absent)
    ));
    assert!(matches!(
        wait_for_remove_after_kill_identity(Ok(DeviceIdentityState::StoppedMatching), false),
        AfterKillStep::Settled(RemoveAfterKillIdentity::Deletable)
    ));
    assert!(matches!(
        wait_for_remove_after_kill_identity(Ok(DeviceIdentityState::Matching), false),
        AfterKillStep::Again
    ));
    assert!(matches!(
        wait_for_remove_after_kill_identity(Ok(DeviceIdentityState::Matching), true),
        AfterKillStep::Settled(RemoveAfterKillIdentity::Deletable)
    ));
    assert!(matches!(
        wait_for_remove_after_kill_identity(Ok(DeviceIdentityState::IdentityChanged), false),
        AfterKillStep::Refuse(_)
    ));
    assert!(matches!(
        wait_for_remove_after_kill_identity(Err(other("?")), false),
        AfterKillStep::Again
    ));
    assert!(matches!(
        wait_for_remove_after_kill_identity(Err(other("?")), true),
        AfterKillStep::Refuse(_)
    ));

    let (result, keep) =
        require_device_identity(Ok(DeviceIdentityState::StoppedMatching), "before fio", false);
    assert_eq!(
        result.unwrap_err().message,
        "recorded device is not active before fio"
    );
    assert!(!keep);
    let (result, keep) =
        require_device_identity(Ok(DeviceIdentityState::StoppedMatching), "x", true);
    assert!(result.is_ok() && !keep);
    let (result, keep) =
        require_device_identity(Ok(DeviceIdentityState::IdentityChanged), "before delete", true);
    assert_eq!(
        result.unwrap_err().message,
        "recorded device identity changed before delete"
    );
    assert!(keep);
}

// Processes.

#[test]
fn tests_empty_child() {}

#[test]
fn ublk_fio_empty_child() {}

#[test]
fn kill_daemon_requires_and_records_exact_sigkill() {
    assert!(require_killed(Outcome::Exit(killed(9))).is_ok());
    assert_eq!(killed_line(), "daemon SIGKILL: signal=9");
}

#[test]
fn kill_daemon_rejects_a_different_unsuccessful_exit() {
    let error = require_killed(Outcome::Exit(exit(23))).unwrap_err();
    assert!(error.message.contains("SIGKILL daemon exit"));
    assert_eq!(
        require_killed(Outcome::Timeout).unwrap_err().message,
        "daemon SIGKILL timed out"
    );
}

#[test]
fn outcomes_are_reported_in_words() {
    assert!(require_success("fio", &exit(0)).is_ok());
    assert_eq!(
        require_success("fio", &exit(2)).unwrap_err().message,
        "fio failed with exit status: 2"
    );
    assert!(require_graceful_stop(Outcome::Exit(exit(0))).is_ok());
    assert_eq!(
        require_graceful_stop(Outcome::Exit(exit(1))).unwrap_err().message,
        "daemon SIGTERM exit was exit status: 1"
    );
    assert_eq!(
        require_graceful_stop(Outcome::Timeout).unwrap_err().kind,
        LabErrorKind::TimedOut
    );
    assert_eq!(
        require_fio_parsed(Outcome::Exit(exit(1))).unwrap_err().message,
        "fio rejected command with exit status: 1"
    );
    assert_eq!(
        require_fio_version(Outcome::Timeout).unwrap_err().message,
        "fio --version preflight timed out"
    );
    assert!(require_lock_failure(&exit(1), true, LOCK_ERROR).is_ok());
    assert!(require_lock_failure(&exit(1), false, LOCK_ERROR).is_err());
    assert_eq!(
        require_lock_failure(&exit(0), true, LOCK_ERROR).unwrap_err().message,
        "second daemon did not produce exact backing-lock failure (status exit status: 0)"
    );
}

#[test]
fn normal_exit_is_reported() {
    match after_poll(Ok(Some(exit(0))), true) {
        WaitStep::Done(Outcome::Exit(found)) => assert!(found.success()),
        _ => panic!("the child ended"),
    }
}

#[test]
fn timeout_is_reported() {
    assert!(matches!(
        after_poll(Ok(None), true),
        WaitStep::Done(Outcome::Timeout)
    ));
    assert!(matches!(after_poll(Ok(None), false), WaitStep::Again));
    assert!(matches!(after_poll(Err(other("?")), true), WaitStep::Fail(_)));
}

#[test]
fn managed_child_supports_explicit_term_and_cleanup() {
    let mut child = ChildGroup::new(77);
    let mut cleanup = child.begin_cleanup();
    assert_eq!(cleanup.phase, CleanupPhase::Terminate);
    cleanup.advance(CleanupEvent::Done(Ok(())));
    cleanup.advance(CleanupEvent::Clock(false));
    cleanup.advance(CleanupEvent::Polled(Ok(true)));
    cleanup.advance(CleanupEvent::Done(Ok(())));
    assert_eq!(cleanup.phase, CleanupPhase::CheckGroup);
    cleanup.advance(CleanupEvent::Group(Ok(false)));
    assert_eq!(cleanup.phase, CleanupPhase::Kill);
    cleanup.advance(CleanupEvent::Done(Ok(())));
    cleanup.advance(CleanupEvent::PolledBy(Ok(true), false));
    assert_eq!(cleanup.phase, CleanupPhase::ReapGroup);
    cleanup.advance(CleanupEvent::Done(Ok(())));
    assert_eq!(cleanup.phase, CleanupPhase::Finished);
    assert!(!child.cleaned());
    child.end_cleanup(cleanup).unwrap();

    // The second cleanup is done before it has sent anything.
    let again = child.begin_cleanup();
    assert_eq!(again.phase, CleanupPhase::Finished);
    child.end_cleanup(again).unwrap();
    assert!(child.cleaned());
}

#[test]
fn failed_cleanup_is_begun_again_and_a_preserved_child_is_left_alone() {
    let mut child = ChildGroup::new(77);
    let mut cleanup = child.begin_cleanup();
    cleanup.advance(CleanupEvent::Done(Err(other("no signal"))));
    cleanup.advance(CleanupEvent::Clock(true));
    cleanup.advance(CleanupEvent::Done(Ok(())));
    cleanup.advance(CleanupEvent::PolledBy(Ok(true), false));
    cleanup.advance(CleanupEvent::Done(Ok(())));
    assert_eq!(child.end_cleanup(cleanup).unwrap_err().message, "no signal");
    assert_eq!(child.begin_cleanup().phase, CleanupPhase::Terminate);
    assert_eq!(child.begin_cleanup().group, 77);
    child.preserve();
    assert_eq!(child.group(), 77);
    assert_eq!(child.begin_cleanup().phase, CleanupPhase::Finished);
    assert_eq!(ChildCleanup::begin(5, false).phase, CleanupPhase::Terminate);
    assert!(ChildCleanup::begin(5, true).result().is_ok());
}

#[test]
fn managed_child_supports_exact_kill() {
    let mut cleanup = ChildCleanup::new(77);
    cleanup.advance(CleanupEvent::Done(Err(other("first"))));
    cleanup.advance(CleanupEvent::Clock(true));
    cleanup.advance(CleanupEvent::Done(Err(other("second"))));
    cleanup.advance(CleanupEvent::PolledBy(Ok(false), false));
    assert_eq!(cleanup.phase, CleanupPhase::KillPoll);
    cleanup.advance(CleanupEvent::PolledBy(Ok(false), true));
    cleanup.advance(CleanupEvent::Done(Ok(())));
    assert_eq!(cleanup.result().unwrap_err().message, "first");

    let mut cleanup = ChildCleanup::new(77);
    cleanup.advance(CleanupEvent::Done(Ok(())));
    cleanup.advance(CleanupEvent::Clock(true));
    cleanup.advance(CleanupEvent::Done(Ok(())));
    cleanup.advance(CleanupEvent::PolledBy(Ok(false), true));
    cleanup.advance(CleanupEvent::Done(Ok(())));
    let error = cleanup.result().unwrap_err();
    assert_eq!(error.kind, LabErrorKind::TimedOut);
    assert_eq!(error.message, "process-group leader 77 did not reap");
}

#[test]
fn system_answers_are_read_as_documented() {
    assert!(signal_result(0, 0, other("e")).is_ok());
    assert!(signal_result(-1, 3, other("e")).is_ok());
    assert!(signal_result(-1, 1, other("e")).is_err());
    assert_eq!(existence_result(0, 0, other("e")), Ok(true));
    assert_eq!(existence_result(-1, 3, other("e")), Ok(false));
    assert_eq!(existence_result(-1, 1, other("e")), Ok(true));
    assert!(existence_result(-1, 22, other("e")).is_err());
    assert!(matches!(
        reap_available_step(5, 0, other("e")),
        ReapStep::Again
    ));
    assert!(matches!(
        reap_available_step(0, 0, other("e")),
        ReapStep::Done
    ));
    assert!(matches!(
        reap_available_step(-1, 10, other("e")),
        ReapStep::Done
    ));
    assert!(matches!(
        reap_available_step(-1, 4, other("e")),
        ReapStep::Again
    ));
    assert!(matches!(
        reap_available_step(-1, 22, other("e")),
        ReapStep::Fail(_)
    ));
    assert!(matches!(
        reap_step(9, 0, 0, other("e"), false),
        ReapStep::Pause
    ));
    match reap_step(9, 0, 0, other("e"), true) {
        ReapStep::Fail(error) => assert_eq!(error.message, "process group 9 did not reap"),
        _ => panic!("the time was up"),
    }
    assert!(matches!(
        reap_step(9, -1, 10, other("e"), true),
        ReapStep::Done
    ));
    assert_eq!(
        cleanup_after_error("waiting for child", other("a"), Err(other("b"))).message,
        "waiting for child failed: a; cleanup failed: b"
    );
    assert_eq!(
        cleanup_after_error("waiting for child", other("a"), Ok(())).message,
        "a"
    );
}

// Cleaning up after a failure.

#[test]
fn cleanup_progress_enforces_child_device_temp_order() {
    let mut progress = CleanupProgress::default();
    assert!(progress.device().is_err());
    progress.child_group();
    progress.device().unwrap();
    progress.temp().unwrap();
    assert!(progress.child_group_done && progress.device_done && progress.temp_done);
    assert_eq!(
        CleanupProgress::new().temp().unwrap_err().message,
        "temp cleanup preceded device cleanup"
    );
}

fn leftovers() -> Leftovers {
    Leftovers {
        child: false,
        device: true,
        temp: Some("/tmp/owned".to_string()),
        backing: true,
        preserve_for_identity: false,
    }
}

fn assert_unsafe_identity_cleanup_preserves(ambiguous: bool) {
    let mut cleanup = ErrorCleanup::new(leftovers());
    let mut delete_was_invoked = false;
    let mut removed = false;
    loop {
        match cleanup.phase {
            ErrorPhase::Identity => cleanup.advance(ErrorEvent::State(if ambiguous {
                Err(other("identity is ambiguous"))
            } else {
                Ok(DeviceIdentityState::IdentityChanged)
            })),
            ErrorPhase::Delete => {
                delete_was_invoked = true;
                cleanup.advance(ErrorEvent::Done(Ok(())));
            }
            ErrorPhase::RemoveTemp => {
                removed = true;
                cleanup.advance(ErrorEvent::Done(Ok(())));
            }
            ErrorPhase::BackingAbsence => cleanup.advance(ErrorEvent::Present(Ok(false))),
            ErrorPhase::Finished => break,
            _ => cleanup.advance(ErrorEvent::Done(Ok(()))),
        }
    }
    let error = cleanup.result().unwrap_err();
    assert!(error.message.contains("refusing delete"));
    assert!(error
        .message
        .contains("preserving owned temporary directory /tmp/owned"));
    assert!(cleanup.preserved);
    assert!(!removed);
    assert!(!delete_was_invoked, "delete command ran for unsafe identity");
}

#[test]
fn cleanup_refuses_changed_identity_and_preserves_backing() {
    assert_unsafe_identity_cleanup_preserves(false);
}

#[test]
fn cleanup_refuses_ambiguous_identity_and_preserves_backing() {
    assert_unsafe_identity_cleanup_preserves(true);
}

#[test]
fn cleanup_of_a_recorded_device_removes_everything() {
    let mut left = leftovers();
    left.child = true;
    let mut cleanup = ErrorCleanup::new(left);
    for event in [
        ErrorEvent::Done(Ok(())),
        ErrorEvent::State(Ok(DeviceIdentityState::Matching)),
        ErrorEvent::Done(Ok(())),
        ErrorEvent::Done(Ok(())),
        ErrorEvent::Done(Ok(())),
        ErrorEvent::Done(Ok(())),
        ErrorEvent::Done(Ok(())),
    ] {
        cleanup.advance(event);
    }
    assert_eq!(cleanup.phase, ErrorPhase::Finished);
    assert!(cleanup.result().is_ok());
    assert!(!cleanup.preserved);
}

#[test]
fn cleanup_reports_every_error_it_meets() {
    let mut left = leftovers();
    left.child = true;
    let mut cleanup = ErrorCleanup::new(left);
    cleanup.advance(ErrorEvent::Done(Err(other("busy"))));
    cleanup.advance(ErrorEvent::Done(Err(other("unreadable"))));
    assert_eq!(
        cleanup.result().unwrap_err().message,
        "child group: busy; daemon log capture: unreadable; preserving owned temporary directory /tmp/owned"
    );

    let mut left = leftovers();
    left.device = false;
    left.backing = false;
    let mut cleanup = ErrorCleanup::new(left);
    cleanup.advance(ErrorEvent::Done(Ok(())));
    cleanup.advance(ErrorEvent::Present(Ok(true)));
    assert_eq!(
        cleanup.result().unwrap_err().message,
        "unvalidated backing remains after format failure; preserving owned temporary directory /tmp/owned"
    );

    let mut left = leftovers();
    left.preserve_for_identity = true;
    let mut cleanup = ErrorCleanup::new(left);
    cleanup.advance(ErrorEvent::State(Ok(DeviceIdentityState::Absent)));
    cleanup.advance(ErrorEvent::Done(Ok(())));
    assert!(cleanup.preserved);

    assert_eq!(
        combine_with_cleanup(other("a"), Err(other("b"))).message,
        "a; cleanup failed: b"
    );
}

// The record of a run.

#[test]
fn records_name_the_commit_and_frame_what_programs_print() {
    assert_eq!(
        log_name("ublk-fio", 17, "abc"),
        "ublk-fio-17-abc.log"
    );
    assert_eq!(
        plain_log_name("ext4", 1789252944846851909),
        "ext4-1789252944846851909.log"
    );
    assert_eq!(
        header("abc", "Linux", Some("fio-3")),
        [
            "commit: abc",
            "kernel: Linux",
            "fio: fio-3",
            "backing: test-created temporary regular file"
        ]
    );
    assert_eq!(
        captured("fio stdout", "a\nb\n"),
        ["--- fio stdout ---", "a", "b", "--- end fio stdout ---"]
    );
    assert_eq!(
        geometry_line(Geometry::expected()),
        "backing geometry: block_bytes=4096 volume_blocks=64 record_capacity=32 log_start_blocks=6 backing_blocks=70 backing_bytes=286720"
    );
    assert_eq!(result_line(&Ok(())), "result: PASS");
    assert_eq!(result_line(&Err(other("x"))), "result: FAIL x");
}

#[test]
fn commands_collect_arguments_and_environment() {
    let mut command = CommandLine::new("fio");
    command.arg("--a");
    command.arg_text("--b".to_string());
    command.set_env("LC_ALL", "C");
    assert_eq!(command.program, "fio");
    assert_eq!(command.args, ["--a", "--b"]);
    assert_eq!(command.env, [("LC_ALL".to_string(), "C".to_string())]);
}
