//! The order in which the lab and the mount helper do things, and what they record.

use block_storage::lab::campaign::{execute, LabStep};
use block_storage::lab::config::{Config, Mode, Span};
use block_storage::lab::device::RemoveAfterKillIdentity;
use block_storage::lab::error::{LabError, LabErrorKind};
use block_storage::lab::evidence::{command_line, program_failure, ready_line};
use block_storage::lab::ext4::{steps, Step};
use block_storage::lab::ext4_run::{
    preflight_steps, repetition_ops, stop_ops, unmount_ops, LabOp,
};
use block_storage::lab::parts::{parts, removal_parts, Part};
use block_storage::lab::plan::{Plan, PlanStep};
use block_storage::lab::process::{Exit, Outcome};
use block_storage::lab::scenario::Scenario;
use block_storage::lab::suite::{head_lines, outcome_text, suite_result_line, timing_line};
use block_storage::lab::ublk::{
    after_creating, initialization_failure, CreateStep, CREATE_ATTEMPTS,
};
use block_storage::mount_helper::Action;
use block_storage::mount_plan::{needs_rollback, plan, rollback_plan, HelperOp};
use block_storage::mounts::{check_table_size, MAX_MOUNTINFO_BYTES};

fn error(kind: LabErrorKind, message: &str) -> LabError {
    LabError {
        kind,
        message: message.to_string(),
    }
}

fn config(mode: Mode) -> Config {
    Config {
        mode,
        slow: Span::from_secs(1),
        per_test: Span::from_secs(60),
        suite: Span::from_secs(600),
    }
}

#[test]
fn plans_end_at_the_first_failure() {
    let mut list = Plan::new(vec![1, 2, 3]);
    assert_eq!(list.step(), Some(1));
    assert!(matches!(list.advance(Ok(())), PlanStep::Perform(2)));
    assert_eq!(list.step(), Some(2));
    let failed = list.advance(Err(error(LabErrorKind::Other, "broken")));
    assert!(matches!(failed, PlanStep::Failed(found) if found.message == "broken"));
    assert_eq!(list.step(), Some(2));
    assert!(matches!(list.advance(Ok(())), PlanStep::Perform(3)));
    assert!(matches!(list.advance(Ok(())), PlanStep::Done));
    assert_eq!(list.step(), None);
    let none: Plan<u8> = Plan::new(Vec::new());
    assert_eq!(none.step(), None);
}

#[test]
fn repetition_mounts_only_what_it_started_and_removes_everything() {
    let ops = repetition_ops();
    let mut daemon = false;
    let mut mounted = false;
    let mut recorded = Vec::new();
    for op in &ops {
        match op {
            LabOp::Record(step) => recorded.push(*step),
            LabOp::Serve => {
                assert!(!daemon && !mounted);
                daemon = true;
            }
            LabOp::HelperMount => {
                assert!(daemon && !mounted);
                mounted = true;
            }
            LabOp::HelperUnmount => {
                assert!(daemon && mounted);
                mounted = false;
            }
            LabOp::Terminate => {
                assert!(daemon && !mounted);
                daemon = false;
            }
            LabOp::RunFilesystem(_) => assert!(daemon && !mounted),
            LabOp::RunWorkload(_) => assert!(mounted),
            _ => {}
        }
    }
    assert!(!daemon && !mounted);
    assert_eq!(recorded, steps().to_vec());
    assert_eq!(ops.len(), 134);
    assert_eq!(ops[0], LabOp::Deadline);
    assert_eq!(ops[1], LabOp::Record(Step::Format));
    assert_eq!(ops[2], LabOp::ValidateDirectory);
    assert_eq!(ops[7], LabOp::CheckDaemonErrors);
    assert_eq!(ops[ops.len() - 8], LabOp::RequireNothingAlive);
    assert_eq!(ops[ops.len() - 1], LabOp::RequireRemoved);
}

#[test]
fn stopping_and_unmounting_check_first() {
    assert_eq!(
        stop_ops(),
        [
            LabOp::RequireUnmounted,
            LabOp::RecordCounters,
            LabOp::Deadline,
            LabOp::Terminate,
            LabOp::AwaitCleanStop,
            LabOp::AwaitGone,
            LabOp::LogDaemon,
        ]
    );
    assert_eq!(
        unmount_ops(),
        [
            LabOp::RequireWorkloadReaped,
            LabOp::RequireMounted,
            LabOp::HelperUnmount,
            LabOp::RequireUnmounted,
            LabOp::ForgetMount,
        ]
    );
    assert_eq!(preflight_steps().len(), 15);
}

#[test]
fn steps_are_made_of_guarded_parts() {
    assert_eq!(
        parts(LabStep::Setup),
        [
            Part::RequireFresh,
            Part::CreateDirectory,
            Part::ValidateDirectory,
            Part::RunFormat,
            Part::TakeBacking,
            Part::ValidateBacking,
        ]
    );
    assert_eq!(
        parts(LabStep::Fio { job: 1 }),
        [
            Part::RequireMatching,
            Part::ValidateBacking,
            Part::RunFio { job: 1 },
            Part::RequireFioSuccess { job: 1 },
        ]
    );
    assert_eq!(
        removal_parts(RemoveAfterKillIdentity::Absent),
        [Part::ForgetDevice]
    );
    assert_eq!(
        removal_parts(RemoveAfterKillIdentity::Deletable),
        [
            Part::RequireDeletable,
            Part::RunDelete,
            Part::AwaitDisappearance,
            Part::ForgetDevice,
        ]
    );
    let all: Vec<Part> = execute(Scenario::DescriptorCloseFailpoint, true)
        .into_iter()
        .flat_map(parts)
        .collect();
    assert_eq!(
        all.iter()
            .filter(|part| matches!(part, Part::Serve { failpoint: true }))
            .count(),
        1
    );
    assert_eq!(all.first(), Some(&Part::Announce));
    assert_eq!(all.last(), Some(&Part::Pass));
    assert!(all.contains(&Part::RunSecond));
}

#[test]
fn helper_looks_before_it_mounts_and_takes_back_what_it_mounted() {
    let name = "my-block-storage-ublk.12.0".to_string();
    let mount = plan(&Action::Mount(7, name.clone()));
    let at = mount
        .iter()
        .position(|op| *op == HelperOp::Mount)
        .unwrap();
    assert_eq!(at, 11);
    assert_eq!(
        &mount[..at],
        [
            HelperOp::OpenParent,
            HelperOp::OpenBacking,
            HelperOp::OpenClass,
            HelperOp::CheckOwner,
            HelperOp::OpenDevice,
            HelperOp::CheckOwner,
            HelperOp::CheckClass,
            HelperOp::OpenTarget,
            HelperOp::ReadMounts,
            HelperOp::RequireUnmounted,
            HelperOp::CheckTarget,
        ]
    );
    // A mount table that cannot be read right behind the mount leaves the mount as it is.
    assert_eq!(mount[at + 1], HelperOp::ReadMounts);
    assert_eq!(mount[at + 2], HelperOp::RequireMounted);
    for failed in 0..mount.len() {
        assert_eq!(needs_rollback(&mount, failed), failed > at + 1);
    }
    let unmount = plan(&Action::Unmount(7, name));
    for failed in 0..unmount.len() {
        assert!(!needs_rollback(&unmount, failed));
    }
    assert_eq!(rollback_plan()[0], HelperOp::OpenTarget);
    assert_eq!(rollback_plan()[1..], unmount[8..]);
    assert!(plan(&Action::Check).is_empty());
}

#[test]
fn directories_are_tried_a_bounded_number_of_times() {
    let taken = || error(LabErrorKind::AlreadyExists, "File exists (os error 17)");
    assert!(matches!(after_creating(1, Ok(())), CreateStep::Initialize));
    assert!(matches!(after_creating(1, Err(taken())), CreateStep::Again));
    assert!(matches!(
        after_creating(CREATE_ATTEMPTS - 1, Err(taken())),
        CreateStep::Again
    ));
    assert!(matches!(
        after_creating(CREATE_ATTEMPTS, Err(taken())),
        CreateStep::Fail(found) if found
            == error(
                LabErrorKind::AlreadyExists,
                "could not allocate a unique temporary directory"
            )
    ));
    assert!(matches!(
        after_creating(1, Err(error(LabErrorKind::PermissionDenied, "denied"))),
        CreateStep::Fail(found) if found == error(LabErrorKind::PermissionDenied, "denied")
    ));
    let first = error(LabErrorKind::NotFound, "gone");
    assert_eq!(
        initialization_failure(error(LabErrorKind::NotFound, "gone"), Ok(())),
        first
    );
    assert_eq!(
        initialization_failure(first, Err(error(LabErrorKind::Other, "busy"))),
        error(
            LabErrorKind::Other,
            "initializing temporary directory failed: gone; rollback failed: busy"
        )
    );
}

#[test]
fn records_are_worded_exactly() {
    assert_eq!(
        head_lines(config(Mode::EngineCrash), "/repo/rust"),
        [
            "working directory: /repo/rust",
            "environment: BLOCK_STORAGE_CRASH_TEST_MODE=acceptance",
            "deadlines: per-test=60s suite=600s slow=1s",
        ]
    );
    assert_eq!(head_lines(config(Mode::Test), "/r").len(), 2);
    let exit = Outcome::Exit(Exit {
        code: Some(0),
        signal: None,
        text: "exit status: 0".to_string(),
    });
    assert_eq!(outcome_text(&exit), "exit status: 0");
    assert_eq!(outcome_text(&Outcome::Timeout), "timeout");
    assert_eq!(
        timing_line(Span::from_millis(1234), &Ok(Outcome::Timeout)),
        "timing: 1.234s result: timeout"
    );
    assert_eq!(
        timing_line(
            Span::from_secs(2),
            &Err(error(LabErrorKind::Other, "no fork"))
        ),
        "timing: 2.000s result: error: no fork"
    );
    assert_eq!(suite_result_line(&Ok(true)), "result: PASS");
    assert_eq!(suite_result_line(&Ok(false)), "result: FAIL");
    assert_eq!(
        suite_result_line(&Err(error(LabErrorKind::Other, "broken"))),
        "result: ERROR broken"
    );
    assert_eq!(
        command_line("fio", 17, "\"fio\" \"--version\""),
        "command fio at_ms=17: \"fio\" \"--version\""
    );
    assert_eq!(
        ready_line(99, "/dev/ublkb3", 3),
        "ready: pid=99 path=/dev/ublkb3 id=3"
    );
    assert_eq!(
        program_failure("git", "exit status: 128"),
        error(LabErrorKind::Other, "git exited with exit status: 128")
    );
}

#[test]
fn mount_table_is_bounded() {
    assert!(check_table_size(MAX_MOUNTINFO_BYTES).is_ok());
    assert_eq!(
        check_table_size(MAX_MOUNTINFO_BYTES + 1),
        Err(error(
            LabErrorKind::Other,
            "mount table exceeds the lab limit"
        ))
    );
}
