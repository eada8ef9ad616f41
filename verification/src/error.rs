//! What an operation on a volume can be refused with.

use vstd::prelude::*;

verus! {

/// How a block request failed.
#[derive(Clone, Copy, Debug, PartialEq, Eq, Structural)]
pub enum IoFailure {
    /// The operating system reported this error number.
    Os(i32),
    /// No ring is left to submit to.
    RingUnavailable,
    /// The submission queue had no free entry.
    SubmissionQueueFull,
    /// More entries were submitted than were queued.
    SubmissionCount,
    /// A completion belonged to another request or carried flags.
    UnexpectedCompletion,
    /// The request transferred fewer or more bytes than it asked for.
    ShortOperation,
    /// A second completion followed the awaited one.
    ExtraCompletion,
    /// Memory for the mapping could not be reserved.
    OutOfMemory,
}

/// The class of an error. `Io` is that of the errors that the operating system reported, which
/// their numbers tell apart further.
#[derive(Clone, Copy, Debug, PartialEq, Eq, Structural)]
pub enum ErrorKind {
    InvalidInput,
    InvalidData,
    StorageFull,
    Io,
    Other,
}

/// Why a volume operation did not succeed.
#[derive(Clone, Copy, Debug, PartialEq, Eq, Structural)]
pub enum StorageError {
    /// An earlier request failed, so the volume no longer accepts operations.
    VolumeFailed,
    InvalidLogicalBlock,
    SequenceExhausted,
    /// The log has no room for another record.
    NoSpace,
    PayloadChecksumMismatch,
    InvalidVolumeSize,
    BackingNotBlockAligned,
    BackingTooLarge,
    BackingTooSmall,
    InvalidCheckpointAfterBytes,
    RootsDisagree,
    EqualLsnRootsDisagree,
    NoValidCheckpointBody,
    /// A block request failed.
    Io(IoFailure),
}

impl IoFailure {
    pub open spec fn text(self) -> Seq<char> {
        match self {
            IoFailure::Os(_) => "operating system error"@,
            IoFailure::RingUnavailable => "io_uring unavailable"@,
            IoFailure::SubmissionQueueFull => "io_uring submission queue is full"@,
            IoFailure::SubmissionCount => "unexpected io_uring submission count"@,
            IoFailure::UnexpectedCompletion => "unexpected io_uring completion"@,
            IoFailure::ShortOperation => "short io_uring operation"@,
            IoFailure::ExtraCompletion => "unexpected extra io_uring completion"@,
            IoFailure::OutOfMemory => "out of memory"@,
        }
    }

    pub fn message(self) -> (message: &'static str)
        ensures
            message@ == self.text(),
    {
        match self {
            IoFailure::Os(_) => "operating system error",
            IoFailure::RingUnavailable => "io_uring unavailable",
            IoFailure::SubmissionQueueFull => "io_uring submission queue is full",
            IoFailure::SubmissionCount => "unexpected io_uring submission count",
            IoFailure::UnexpectedCompletion => "unexpected io_uring completion",
            IoFailure::ShortOperation => "short io_uring operation",
            IoFailure::ExtraCompletion => "unexpected extra io_uring completion",
            IoFailure::OutOfMemory => "out of memory",
        }
    }
}

impl StorageError {
    pub open spec fn kind_of(self) -> ErrorKind {
        match self {
            StorageError::InvalidLogicalBlock
            | StorageError::InvalidVolumeSize
            | StorageError::BackingNotBlockAligned
            | StorageError::BackingTooLarge
            | StorageError::BackingTooSmall
            | StorageError::InvalidCheckpointAfterBytes => ErrorKind::InvalidInput,
            StorageError::PayloadChecksumMismatch
            | StorageError::RootsDisagree
            | StorageError::EqualLsnRootsDisagree
            | StorageError::NoValidCheckpointBody => ErrorKind::InvalidData,
            StorageError::NoSpace => ErrorKind::StorageFull,
            StorageError::Io(IoFailure::Os(_)) => ErrorKind::Io,
            StorageError::Io(_)
            | StorageError::VolumeFailed
            | StorageError::SequenceExhausted => ErrorKind::Other,
        }
    }

    pub open spec fn text(self) -> Seq<char> {
        match self {
            StorageError::VolumeFailed => "volume failed"@,
            StorageError::InvalidLogicalBlock => "invalid logical block"@,
            StorageError::SequenceExhausted => "sequence exhausted"@,
            StorageError::NoSpace => "no space left on device"@,
            StorageError::PayloadChecksumMismatch => "payload checksum mismatch"@,
            StorageError::InvalidVolumeSize => "invalid volume size"@,
            StorageError::BackingNotBlockAligned => "backing size is not block aligned"@,
            StorageError::BackingTooLarge => "backing exceeds physical address space"@,
            StorageError::BackingTooSmall => "backing has no room for the initial log record"@,
            StorageError::InvalidCheckpointAfterBytes => "invalid checkpoint_after_bytes"@,
            StorageError::RootsDisagree => "checkpoint roots disagree"@,
            StorageError::EqualLsnRootsDisagree => "equal-LSN checkpoint roots disagree"@,
            StorageError::NoValidCheckpointBody => "no valid checkpoint body"@,
            StorageError::Io(failure) => failure.text(),
        }
    }

    pub fn kind(self) -> (kind: ErrorKind)
        ensures
            kind == self.kind_of(),
    {
        match self {
            StorageError::InvalidLogicalBlock
            | StorageError::InvalidVolumeSize
            | StorageError::BackingNotBlockAligned
            | StorageError::BackingTooLarge
            | StorageError::BackingTooSmall
            | StorageError::InvalidCheckpointAfterBytes => ErrorKind::InvalidInput,
            StorageError::PayloadChecksumMismatch
            | StorageError::RootsDisagree
            | StorageError::EqualLsnRootsDisagree
            | StorageError::NoValidCheckpointBody => ErrorKind::InvalidData,
            StorageError::NoSpace => ErrorKind::StorageFull,
            StorageError::Io(IoFailure::Os(_)) => ErrorKind::Io,
            StorageError::Io(_)
            | StorageError::VolumeFailed
            | StorageError::SequenceExhausted => ErrorKind::Other,
        }
    }

    pub fn message(self) -> (message: &'static str)
        ensures
            message@ == self.text(),
    {
        match self {
            StorageError::VolumeFailed => "volume failed",
            StorageError::InvalidLogicalBlock => "invalid logical block",
            StorageError::SequenceExhausted => "sequence exhausted",
            StorageError::NoSpace => "no space left on device",
            StorageError::PayloadChecksumMismatch => "payload checksum mismatch",
            StorageError::InvalidVolumeSize => "invalid volume size",
            StorageError::BackingNotBlockAligned => "backing size is not block aligned",
            StorageError::BackingTooLarge => "backing exceeds physical address space",
            StorageError::BackingTooSmall => "backing has no room for the initial log record",
            StorageError::InvalidCheckpointAfterBytes => "invalid checkpoint_after_bytes",
            StorageError::RootsDisagree => "checkpoint roots disagree",
            StorageError::EqualLsnRootsDisagree => "equal-LSN checkpoint roots disagree",
            StorageError::NoValidCheckpointBody => "no valid checkpoint body",
            StorageError::Io(failure) => failure.message(),
        }
    }

    /// The error number that the operating system has for this, if it has one.
    pub fn raw_os_error(self) -> (number: Option<i32>)
        ensures
            number == match self {
                StorageError::NoSpace => Some(28i32),
                StorageError::Io(IoFailure::Os(number)) => Some(number),
                _ => None,
            },
    {
        match self {
            StorageError::NoSpace => Some(28),
            StorageError::Io(IoFailure::Os(number)) => Some(number),
            _ => None,
        }
    }
}

} // verus!
