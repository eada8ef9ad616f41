//! Deciding when a submitted request has completed exactly as asked.

use crate::error::IoFailure;
use vstd::prelude::*;

verus! {

/// What submitting and waiting came back with.
#[derive(Clone, Copy, Debug, PartialEq, Eq, Structural)]
pub enum Submission {
    /// So many queued entries were consumed.
    Submitted(usize),
    /// A signal interrupted the wait.
    Interrupted,
    /// The operating system refused with this error number.
    Failed(i32),
}

/// One entry of the completion queue.
#[derive(Clone, Copy, Debug, PartialEq, Eq, Structural)]
pub struct Completion {
    pub tag: u64,
    pub flags: u32,
    pub result: i32,
}

/// What to do with the ring after submitting.
#[derive(Clone, Copy, Debug, PartialEq, Eq, Structural)]
pub enum SubmissionStep {
    /// Look for a completion.
    Poll,
    /// Destroy the ring, so that the kernel drops the request, and give up.
    Destroy(IoFailure),
}

/// What to do after looking for a completion.
#[derive(Clone, Copy, Debug, PartialEq, Eq, Structural)]
pub enum WaitStep {
    /// Submit and wait again.
    Again,
    /// Look for one more completion, which must not exist.
    ExpectNone,
    /// Give up.
    Fail(IoFailure),
}

/// The wait for the completion of one queued request.
#[derive(Clone, Copy, Debug, PartialEq, Eq, Structural)]
pub struct Wait {
    pub tag: u64,
    pub expected_result: i32,
    pub submitted: usize,
    pub unexpected_completion: bool,
}

impl Wait {
    /// At most the one queued entry has been submitted.
    pub open spec fn wf(self) -> bool {
        self.submitted <= 1
    }

    /// Starts waiting for the request tagged `tag` to report `expected_result`.
    pub fn new(tag: u64, expected_result: i32) -> (wait: Wait)
        ensures
            wait.wf(),
            wait == (Wait { tag, expected_result, submitted: 0, unexpected_completion: false }),
    {
        Wait { tag, expected_result, submitted: 0, unexpected_completion: false }
    }

    /// Takes note of what submitting came back with.
    ///
    /// An interrupted wait may have left the request with the kernel, so the wait goes on.
    pub fn on_submission(&mut self, submission: Submission) -> (step: SubmissionStep)
        requires
            old(self).wf(),
        ensures
            final(self).wf(),
            match submission {
                Submission::Submitted(count) => if old(self).submitted + count <= 1 {
                    &&& step == SubmissionStep::Poll
                    &&& *final(self) == (Wait {
                        submitted: (old(self).submitted + count) as usize,
                        ..*old(self)
                    })
                } else {
                    &&& step == SubmissionStep::Destroy(IoFailure::SubmissionCount)
                    &&& *final(self) == *old(self)
                },
                Submission::Interrupted => step == SubmissionStep::Poll && *final(self) == *old(
                    self,
                ),
                Submission::Failed(number) => {
                    &&& step == SubmissionStep::Destroy(IoFailure::Os(number))
                    &&& *final(self) == *old(self)
                },
            },
    {
        match submission {
            Submission::Submitted(count) => {
                if count <= 1 - self.submitted {
                    self.submitted = self.submitted + count;
                    SubmissionStep::Poll
                } else {
                    SubmissionStep::Destroy(IoFailure::SubmissionCount)
                }
            },
            Submission::Interrupted => SubmissionStep::Poll,
            Submission::Failed(number) => SubmissionStep::Destroy(IoFailure::Os(number)),
        }
    }

    /// What `completion` decides.
    pub open spec fn decision(self, completion: Option<Completion>) -> WaitStep {
        match completion {
            None => WaitStep::Again,
            Some(found) => if found.tag != self.tag {
                WaitStep::Again
            } else if self.unexpected_completion || found.flags != 0 {
                WaitStep::Fail(IoFailure::UnexpectedCompletion)
            } else if found.result < 0 {
                WaitStep::Fail(IoFailure::Os((-found.result) as i32))
            } else if found.result != self.expected_result {
                WaitStep::Fail(IoFailure::ShortOperation)
            } else {
                WaitStep::ExpectNone
            },
        }
    }

    /// Takes note of the completion that was found, if one was.
    ///
    /// A completion of another request is remembered, and the wait goes on to keep the buffers
    /// of this one alive.
    pub fn on_completion(&mut self, completion: Option<Completion>) -> (step: WaitStep)
        requires
            old(self).wf(),
            completion matches Some(found) ==> found.result > i32::MIN,
        ensures
            final(self).wf(),
            step == old(self).decision(completion),
            *final(self) == (Wait {
                unexpected_completion: old(self).unexpected_completion || (completion matches Some(
                    found,
                ) && found.tag != old(self).tag),
                ..*old(self)
            }),
    {
        match completion {
            None => WaitStep::Again,
            Some(found) => {
                if found.tag != self.tag {
                    self.unexpected_completion = true;
                    WaitStep::Again
                } else if self.unexpected_completion || found.flags != 0 {
                    WaitStep::Fail(IoFailure::UnexpectedCompletion)
                } else if found.result < 0 {
                    WaitStep::Fail(IoFailure::Os(-found.result))
                } else if found.result != self.expected_result {
                    WaitStep::Fail(IoFailure::ShortOperation)
                } else {
                    WaitStep::ExpectNone
                }
            },
        }
    }

    /// Ends the wait: succeeds where no completion followed the awaited one.
    pub fn finish(&self, another: bool) -> (result: Result<(), IoFailure>)
        ensures
            result == (if another {
                Err::<(), IoFailure>(IoFailure::ExtraCompletion)
            } else {
                Ok::<(), IoFailure>(())
            }),
    {
        if another {
            Err(IoFailure::ExtraCompletion)
        } else {
            Ok(())
        }
    }
}

/// Law: once a completion of another request was seen, the wait cannot succeed any more.
pub proof fn law_unexpected_completion_is_final(wait: Wait, completion: Option<Completion>)
    requires
        wait.unexpected_completion,
    ensures
        wait.decision(completion) != WaitStep::ExpectNone,
{
}

/// Law: a request has completed exactly if a completion carries its tag, no flags and exactly the
/// expected result, and no completion of another request was seen before; each other completion of
/// it fails with its own error, and anything else is waited out.
pub proof fn law_only_the_exact_completion_counts(wait: Wait, completion: Option<Completion>)
    ensures
        wait.decision(completion) == WaitStep::ExpectNone <==> {
            &&& completion matches Some(found) && found.tag == wait.tag && found.flags == 0
                && found.result == wait.expected_result && found.result >= 0
            &&& !wait.unexpected_completion
        },
        wait.decision(completion) == WaitStep::Again <==> (completion matches Some(found)
            ==> found.tag != wait.tag),
        completion matches Some(found) ==> (found.tag == wait.tag && !wait.unexpected_completion
            && found.flags == 0 ==> {
            &&& -0x7fff_ffff <= found.result < 0 ==> wait.decision(completion) == WaitStep::Fail(
                IoFailure::Os((0 - found.result) as i32),
            )
            &&& found.result >= 0 && found.result != wait.expected_result ==> wait.decision(
                completion,
            ) == WaitStep::Fail(IoFailure::ShortOperation)
        }),
        completion matches Some(found) ==> (found.tag == wait.tag && (wait.unexpected_completion
            || found.flags != 0) ==> wait.decision(completion) == WaitStep::Fail(
            IoFailure::UnexpectedCompletion,
        )),
{
}

} // verus!
