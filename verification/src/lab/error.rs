//! Errors of the lab.

use vstd::prelude::*;

verus! {

/// The class of a lab error.
#[derive(Clone, Copy, Debug, PartialEq, Eq, Structural)]
pub enum LabErrorKind {
    NotFound,
    PermissionDenied,
    AlreadyExists,
    InvalidInput,
    InvalidData,
    TimedOut,
    Unsupported,
    Other,
}

/// Why the lab gave up.
#[derive(Debug, PartialEq, Eq)]
pub struct LabError {
    pub kind: LabErrorKind,
    pub message: String,
}

impl View for LabError {
    type V = (LabErrorKind, Seq<char>);

    open spec fn view(&self) -> (LabErrorKind, Seq<char>) {
        (self.kind, self.message@)
    }
}

/// An error with a fixed message.
pub fn failure(kind: LabErrorKind, message: &str) -> (error: LabError)
    ensures
        error@ == (kind, message@),
{
    LabError { kind, message: String::from_str(message) }
}

/// An error with a message that was put together.
pub fn failure_text(kind: LabErrorKind, message: String) -> (error: LabError)
    ensures
        error@ == (kind, message@),
{
    LabError { kind, message }
}

/// The result of a demand: nothing where it is met, and the message where it is not.
pub open spec fn demanded(met: bool, message: Seq<char>, result: Result<(), LabError>) -> bool {
    match result {
        Ok(()) => met,
        Err(error) => !met && error@ == (LabErrorKind::Other, message),
    }
}

/// Demands that something holds.
pub fn demand(met: bool, message: &str) -> (result: Result<(), LabError>)
    ensures
        demanded(met, message@, result),
{
    if met {
        Ok(())
    } else {
        Err(failure(LabErrorKind::Other, message))
    }
}

/// Law: a demand that is met has no error, and one that is not met has its message as the error.
pub proof fn law_demands_are_enforced(met: bool, message: Seq<char>, result: Result<(), LabError>)
    requires
        demanded(met, message, result),
    ensures
        result is Ok <==> met,
        result matches Err(error) ==> error.message@ == message && error.kind is Other,
{
}

/// Law: the error of an operation is never lost to that of its cleanup: it is told first, and alone
/// where the cleanup succeeded.
pub proof fn law_first_error_is_told(
    error: (LabErrorKind, Seq<char>),
    second: (LabErrorKind, Seq<char>),
)
    ensures
        combined(error, None) == error,
        combined(error, Some(second)).1.take(error.1.len() as int) == error.1,
        combined(error, Some(second)).1.skip(
            combined(error, Some(second)).1.len() - second.1.len(),
        ) == second.1,
        combined(error, Some(second)).0 is Other,
{
    let both = combined(error, Some(second)).1;
    assert(both.take(error.1.len() as int) =~= error.1);
    assert(both.skip(both.len() - second.1.len()) =~= second.1);
}

/// What an outcome means: nothing, or the error's class and message.
pub open spec fn outcome_of(result: Result<(), LabError>) -> Option<(LabErrorKind, Seq<char>)> {
    match result {
        Ok(()) => None,
        Err(error) => Some(error@),
    }
}

/// The error of an operation that failed and whose cleanup was attempted.
pub open spec fn combined(
    error: (LabErrorKind, Seq<char>),
    cleanup: Option<(LabErrorKind, Seq<char>)>,
) -> (LabErrorKind, Seq<char>) {
    match cleanup {
        None => error,
        Some(second) => (LabErrorKind::Other, error.1 + "; cleanup failed: "@ + second.1),
    }
}

/// Reports the error of an operation, and the cleanup's error where that failed too.
pub fn combine_with_cleanup(error: LabError, cleanup: Result<(), LabError>) -> (result: LabError)
    ensures
        result@ == combined(error@, outcome_of(cleanup)),
{
    match cleanup {
        Ok(()) => error,
        Err(second) => {
            let mut message = error.message;
            message.append("; cleanup failed: ");
            message.append(second.message.as_str());
            failure_text(LabErrorKind::Other, message)
        },
    }
}

} // verus!
