//! Waiting for the completion of a request.

use block_storage::completion::{Completion, Submission, SubmissionStep, Wait, WaitStep};
use block_storage::error::IoFailure;

fn completion(tag: u64, flags: u32, result: i32) -> Option<Completion> {
    Some(Completion { tag, flags, result })
}

#[test]
fn waits_when_submission_succeeds_before_completion_exists() {
    let mut wait = Wait::new(7, 1);
    let mut calls = 0;
    calls += 1;
    assert_eq!(
        wait.on_submission(Submission::Submitted(1)),
        SubmissionStep::Poll
    );
    assert_eq!(wait.on_completion(None), WaitStep::Again);
    calls += 1;
    assert_eq!(
        wait.on_submission(Submission::Submitted(0)),
        SubmissionStep::Poll
    );
    assert_eq!(wait.on_completion(completion(7, 0, 1)), WaitStep::ExpectNone);
    assert_eq!(wait.finish(false), Ok(()));
    assert_eq!(calls, 2);
}

#[test]
fn destroys_ring_before_returning_permanent_wait_error() {
    let mut wait = Wait::new(7, 0);
    assert_eq!(
        wait.on_submission(Submission::Failed(5)),
        SubmissionStep::Destroy(IoFailure::Os(5))
    );
}

#[test]
fn interrupted_waits_go_on() {
    let mut wait = Wait::new(1, 4096);
    assert_eq!(
        wait.on_submission(Submission::Interrupted),
        SubmissionStep::Poll
    );
    assert_eq!(wait.on_completion(None), WaitStep::Again);
}

#[test]
fn second_submission_destroys_the_ring() {
    let mut wait = Wait::new(1, 0);
    assert_eq!(
        wait.on_submission(Submission::Submitted(1)),
        SubmissionStep::Poll
    );
    assert_eq!(
        wait.on_submission(Submission::Submitted(1)),
        SubmissionStep::Destroy(IoFailure::SubmissionCount)
    );
}

#[test]
fn completions_are_checked_in_full() {
    let mut wait = Wait::new(3, 4096);
    wait.on_submission(Submission::Submitted(1));
    assert_eq!(
        wait.on_completion(completion(3, 0, 4095)),
        WaitStep::Fail(IoFailure::ShortOperation)
    );
    let mut wait = Wait::new(3, 4096);
    wait.on_submission(Submission::Submitted(1));
    assert_eq!(
        wait.on_completion(completion(3, 0, -9)),
        WaitStep::Fail(IoFailure::Os(9))
    );
    let mut wait = Wait::new(3, 4096);
    wait.on_submission(Submission::Submitted(1));
    assert_eq!(
        wait.on_completion(completion(3, 1, 4096)),
        WaitStep::Fail(IoFailure::UnexpectedCompletion)
    );
    let wait = Wait::new(3, 4096);
    assert_eq!(wait.finish(true), Err(IoFailure::ExtraCompletion));
}

#[test]
fn foreign_completion_fails_the_wait_when_its_own_arrives() {
    let mut wait = Wait::new(3, 0);
    wait.on_submission(Submission::Submitted(1));
    assert_eq!(wait.on_completion(completion(4, 0, 0)), WaitStep::Again);
    assert_eq!(
        wait.on_completion(completion(3, 0, 0)),
        WaitStep::Fail(IoFailure::UnexpectedCompletion)
    );
}

#[test]
fn failures_have_messages() {
    assert_eq!(IoFailure::RingUnavailable.message(), "io_uring unavailable");
    assert_eq!(
        IoFailure::SubmissionQueueFull.message(),
        "io_uring submission queue is full"
    );
    assert_eq!(
        IoFailure::ShortOperation.message(),
        "short io_uring operation"
    );
}
