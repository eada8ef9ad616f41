//! Cleaning up after a run of the ublk lab that failed.

use crate::lab::device::DeviceIdentityState;
use crate::lab::error::{failure, failure_text, LabError, LabErrorKind};
use crate::lab::node::Observed;
use crate::text::join;
#[allow(unused_imports)]
use crate::text::{joined_with, string_views};
use vstd::prelude::*;

verus! {

/// Which parts of a cleanup are done. Each part waits for the one before it.
#[derive(Clone, Copy, Debug, Default, PartialEq, Eq)]
pub struct CleanupProgress {
    pub child_group_done: bool,
    pub device_done: bool,
    pub temp_done: bool,
}

impl CleanupProgress {
    /// Nothing is done.
    pub fn new() -> (progress: CleanupProgress)
        ensures
            progress == (CleanupProgress {
                child_group_done: false,
                device_done: false,
                temp_done: false,
            }),
    {
        CleanupProgress { child_group_done: false, device_done: false, temp_done: false }
    }

    /// The child's process group is cleaned up.
    pub fn child_group(&mut self)
        ensures
            *final(self) == (CleanupProgress { child_group_done: true, ..*old(self) }),
    {
        self.child_group_done = true;
    }

    /// The device is cleaned up.
    pub fn device(&mut self) -> (result: Result<(), LabError>)
        ensures
            match result {
                Ok(()) => {
                    &&& old(self).child_group_done
                    &&& *final(self) == (CleanupProgress { device_done: true, ..*old(self) })
                },
                Err(error) => {
                    &&& !old(self).child_group_done
                    &&& *final(self) == *old(self)
                    &&& error@ == (
                        LabErrorKind::Other,
                        "device cleanup preceded child-group cleanup"@,
                    )
                },
            },
    {
        if !self.child_group_done {
            return Err(
                failure(LabErrorKind::Other, "device cleanup preceded child-group cleanup"),
            );
        }
        self.device_done = true;
        Ok(())
    }

    /// The temporary directory is cleaned up.
    pub fn temp(&mut self) -> (result: Result<(), LabError>)
        ensures
            match result {
                Ok(()) => {
                    &&& old(self).device_done
                    &&& *final(self) == (CleanupProgress { temp_done: true, ..*old(self) })
                },
                Err(error) => {
                    &&& !old(self).device_done
                    &&& *final(self) == *old(self)
                    &&& error@ == (LabErrorKind::Other, "temp cleanup preceded device cleanup"@)
                },
            },
    {
        if !self.device_done {
            return Err(failure(LabErrorKind::Other, "temp cleanup preceded device cleanup"));
        }
        self.temp_done = true;
        Ok(())
    }
}

/// Where the cleanup after a failed run stands, and what it waits for.
#[derive(Clone, Copy, Debug, PartialEq, Eq, Structural)]
pub enum ErrorPhase {
    /// Clean up the child's process group.
    Child,
    /// Copy what the daemon printed; its process group could not be cleaned up.
    LogsOfLiveChild,
    /// See what the device has become.
    Identity,
    /// Delete the device.
    Delete,
    /// Wait for the device to disappear.
    Disappearance,
    /// Copy what the daemon printed.
    Logs,
    /// Validate the backing.
    Backing,
    /// See whether formatting left a backing behind.
    BackingAbsence,
    /// Remove the temporary directory.
    RemoveTemp,
    /// Nothing is left to do.
    Finished,
}

/// What came of the step that a cleanup waits for.
#[derive(Debug)]
pub enum ErrorEvent {
    Done(Observed<()>),
    /// What the device has become.
    State(Observed<DeviceIdentityState>),
    /// Whether a backing is there.
    Present(Observed<bool>),
}

/// What a failed run has left behind.
#[derive(Debug)]
pub struct Leftovers {
    pub child: bool,
    pub device: bool,
    /// The path of the temporary directory.
    pub temp: Option<String>,
    pub backing: bool,
    /// Whether the run itself found that what is there must not be touched.
    pub preserve_for_identity: bool,
}

/// The cleanup after a run that failed. It goes on after errors as far as that is safe, and
/// reports all of them.
#[derive(Debug)]
pub struct ErrorCleanup {
    pub phase: ErrorPhase,
    pub device: bool,
    pub temp: Option<String>,
    pub backing: bool,
    pub must_preserve: bool,
    /// Whether the temporary directory was kept.
    pub preserved: bool,
    pub errors: Vec<String>,
}

/// The meaning of a cleanup.
pub ghost struct ErrorCleanupView {
    pub phase: ErrorPhase,
    pub device: bool,
    pub temp: Option<Seq<char>>,
    pub backing: bool,
    pub must_preserve: bool,
    pub preserved: bool,
    pub errors: Seq<Seq<char>>,
}

/// The meaning of a directory's path.
pub open spec fn path_view(temp: Option<String>) -> Option<Seq<char>> {
    match temp {
        None => None,
        Some(path) => Some(path@),
    }
}

impl View for ErrorCleanup {
    type V = ErrorCleanupView;

    open spec fn view(&self) -> ErrorCleanupView {
        ErrorCleanupView {
            phase: self.phase,
            device: self.device,
            temp: path_view(self.temp),
            backing: self.backing,
            must_preserve: self.must_preserve,
            preserved: self.preserved,
            errors: string_views(self.errors@),
        }
    }
}

impl ErrorCleanupView {
    /// The cleanup in another phase.
    pub open spec fn to(self, phase: ErrorPhase) -> ErrorCleanupView {
        ErrorCleanupView { phase, ..self }
    }

    /// The cleanup with one more error to report.
    pub open spec fn noting(self, text: Seq<char>) -> ErrorCleanupView {
        ErrorCleanupView { errors: self.errors.push(text), ..self }
    }

    /// The cleanup with one more error, for which everything is kept.
    pub open spec fn keeping(self, text: Seq<char>) -> ErrorCleanupView {
        ErrorCleanupView { must_preserve: true, ..self.noting(text) }
    }

    /// The end of a cleanup that keeps the temporary directory.
    pub open spec fn kept(self) -> ErrorCleanupView {
        match self.temp {
            Some(path) => ErrorCleanupView {
                preserved: true,
                ..self.noting("preserving owned temporary directory "@ + path).to(
                    ErrorPhase::Finished,
                )
            },
            None => self.to(ErrorPhase::Finished),
        }
    }

    /// After the child's process group.
    pub open spec fn child_done(self) -> ErrorCleanupView {
        if self.device {
            self.to(ErrorPhase::Identity)
        } else {
            self.to(ErrorPhase::Logs)
        }
    }

    /// After the daemon's output was copied.
    pub open spec fn logs_done(self) -> ErrorCleanupView {
        if self.must_preserve {
            self.kept()
        } else if self.temp is None {
            self.to(ErrorPhase::Finished)
        } else if self.backing {
            self.to(ErrorPhase::Backing)
        } else {
            self.to(ErrorPhase::BackingAbsence)
        }
    }

    /// Whether `event` is what the cleanup waits for.
    pub open spec fn expects(self, event: ErrorEvent) -> bool {
        match self.phase {
            ErrorPhase::Identity => event is State,
            ErrorPhase::BackingAbsence => event is Present,
            ErrorPhase::Finished => false,
            _ => event is Done,
        }
    }

    /// The cleanup after an event.
    pub open spec fn next(self, event: ErrorEvent) -> ErrorCleanupView {
        match (self.phase, event) {
            (ErrorPhase::Child, ErrorEvent::Done(result)) => match result {
                Ok(()) => self.child_done(),
                Err(error) => self.noting("child group: "@ + error@.1).to(
                    ErrorPhase::LogsOfLiveChild,
                ),
            },
            (ErrorPhase::LogsOfLiveChild, ErrorEvent::Done(result)) => match result {
                Ok(()) => self.kept(),
                Err(error) => self.noting("daemon log capture: "@ + error@.1).kept(),
            },
            (ErrorPhase::Identity, ErrorEvent::State(result)) => match result {
                Ok(DeviceIdentityState::Matching) => self.to(ErrorPhase::Delete),
                Ok(DeviceIdentityState::StoppedMatching) => self.to(ErrorPhase::Delete),
                Ok(DeviceIdentityState::Absent) => self.to(ErrorPhase::Logs),
                Ok(DeviceIdentityState::IdentityChanged) => self.keeping(
                    "recorded device identity changed; refusing delete"@,
                ).to(ErrorPhase::Logs),
                Err(error) => self.keeping(
                    "ambiguous device identity; refusing delete: "@ + error@.1,
                ).to(ErrorPhase::Logs),
            },
            (ErrorPhase::Delete, ErrorEvent::Done(result)) => match result {
                Ok(()) => self.to(ErrorPhase::Disappearance),
                Err(error) => self.keeping("device delete: "@ + error@.1).to(ErrorPhase::Logs),
            },
            (ErrorPhase::Disappearance, ErrorEvent::Done(result)) => match result {
                Ok(()) => self.to(ErrorPhase::Logs),
                Err(error) => self.keeping("device disappearance: "@ + error@.1).to(
                    ErrorPhase::Logs,
                ),
            },
            (ErrorPhase::Logs, ErrorEvent::Done(result)) => match result {
                Ok(()) => self.logs_done(),
                Err(error) => self.noting("daemon log capture: "@ + error@.1).logs_done(),
            },
            (ErrorPhase::Backing, ErrorEvent::Done(result)) => match result {
                Ok(()) => self.to(ErrorPhase::RemoveTemp),
                Err(error) => self.keeping(
                    "backing validation before cleanup: "@ + error@.1,
                ).kept(),
            },
            (ErrorPhase::BackingAbsence, ErrorEvent::Present(result)) => match result {
                Ok(true) => self.keeping(
                    "unvalidated backing remains after format failure"@,
                ).kept(),
                Ok(false) => self.to(ErrorPhase::RemoveTemp),
                Err(error) => self.keeping(
                    "cannot prove failed-format backing absence: "@ + error@.1,
                ).kept(),
            },
            (ErrorPhase::RemoveTemp, ErrorEvent::Done(result)) => match result {
                Ok(()) => self.to(ErrorPhase::Finished),
                Err(error) => self.noting("temporary directory: "@ + error@.1).to(
                    ErrorPhase::Finished,
                ),
            },
            _ => self,
        }
    }
}

/// The start of the cleanup of what a failed run has left behind.
pub open spec fn cleanup_of(left: Leftovers) -> ErrorCleanupView {
    let start = ErrorCleanupView {
        phase: ErrorPhase::Child,
        device: left.device,
        temp: path_view(left.temp),
        backing: left.backing,
        must_preserve: left.preserve_for_identity,
        preserved: false,
        errors: Seq::empty(),
    };
    if left.child {
        start
    } else {
        start.child_done()
    }
}

fn said(label: &str, error: &LabError) -> (text: String)
    ensures
        text@ == label@ + error@.1,
{
    let mut text = String::from_str(label);
    text.append(error.message.as_str());
    text
}

impl ErrorCleanup {
    /// Starts the cleanup of what a failed run has left behind.
    pub fn new(left: Leftovers) -> (cleanup: ErrorCleanup)
        ensures
            cleanup@ == cleanup_of(left),
    {
        let phase = if left.child {
            ErrorPhase::Child
        } else if left.device {
            ErrorPhase::Identity
        } else {
            ErrorPhase::Logs
        };
        let cleanup = ErrorCleanup {
            phase,
            device: left.device,
            temp: left.temp,
            backing: left.backing,
            must_preserve: left.preserve_for_identity,
            preserved: false,
            errors: Vec::new(),
        };
        assert(cleanup@.errors =~= Seq::<Seq<char>>::empty());
        cleanup
    }

    fn note(&mut self, text: String)
        ensures
            final(self)@ == old(self)@.noting(text@),
    {
        let ghost before = self@;
        self.errors.push(text);
        assert(self@.errors =~= before.errors.push(text@));
    }

    fn keep(&mut self, text: String)
        ensures
            final(self)@ == old(self)@.keeping(text@),
    {
        self.note(text);
        self.must_preserve = true;
    }

    fn finish_keeping(&mut self)
        ensures
            final(self)@ == old(self)@.kept(),
    {
        let note = match &self.temp {
            Some(path) => {
                let mut text = String::from_str("preserving owned temporary directory ");
                text.append(path.as_str());
                Some(text)
            },
            None => None,
        };
        match note {
            Some(text) => {
                self.note(text);
                self.preserved = true;
            },
            None => {},
        }
        self.phase = ErrorPhase::Finished;
    }

    fn finish_logs(&mut self)
        ensures
            final(self)@ == old(self)@.logs_done(),
    {
        if self.must_preserve {
            self.finish_keeping();
        } else if self.temp.is_none() {
            self.phase = ErrorPhase::Finished;
        } else if self.backing {
            self.phase = ErrorPhase::Backing;
        } else {
            self.phase = ErrorPhase::BackingAbsence;
        }
    }

    fn done(&mut self)
        requires
            old(self)@.expects(ErrorEvent::Done(Ok(()))),
        ensures
            final(self)@ == old(self)@.next(ErrorEvent::Done(Ok(()))),
    {
        match self.phase {
            ErrorPhase::Child => {
                self.phase = if self.device {
                    ErrorPhase::Identity
                } else {
                    ErrorPhase::Logs
                };
            },
            ErrorPhase::LogsOfLiveChild => self.finish_keeping(),
            ErrorPhase::Delete => {
                self.phase = ErrorPhase::Disappearance;
            },
            ErrorPhase::Disappearance => {
                self.phase = ErrorPhase::Logs;
            },
            ErrorPhase::Logs => self.finish_logs(),
            ErrorPhase::Backing => {
                self.phase = ErrorPhase::RemoveTemp;
            },
            _ => {
                self.phase = ErrorPhase::Finished;
            },
        }
    }

    fn failed(&mut self, error: LabError)
        requires
            old(self)@.expects(ErrorEvent::Done(Err(error))),
        ensures
            final(self)@ == old(self)@.next(ErrorEvent::Done(Err(error))),
    {
        match self.phase {
            ErrorPhase::Child => {
                self.note(said("child group: ", &error));
                self.phase = ErrorPhase::LogsOfLiveChild;
            },
            ErrorPhase::LogsOfLiveChild => {
                self.note(said("daemon log capture: ", &error));
                self.finish_keeping();
            },
            ErrorPhase::Delete => {
                self.keep(said("device delete: ", &error));
                self.phase = ErrorPhase::Logs;
            },
            ErrorPhase::Disappearance => {
                self.keep(said("device disappearance: ", &error));
                self.phase = ErrorPhase::Logs;
            },
            ErrorPhase::Logs => {
                self.note(said("daemon log capture: ", &error));
                self.finish_logs();
            },
            ErrorPhase::Backing => {
                self.keep(said("backing validation before cleanup: ", &error));
                self.finish_keeping();
            },
            _ => {
                self.note(said("temporary directory: ", &error));
                self.phase = ErrorPhase::Finished;
            },
        }
    }

    /// Takes what came of the step that the cleanup waits for.
    pub fn advance(&mut self, event: ErrorEvent)
        requires
            old(self)@.expects(event),
        ensures
            final(self)@ == old(self)@.next(event),
    {
        match event {
            ErrorEvent::Done(Ok(())) => self.done(),
            ErrorEvent::Done(Err(error)) => self.failed(error),
            ErrorEvent::State(result) => {
                match result {
                    Ok(DeviceIdentityState::Matching) | Ok(DeviceIdentityState::StoppedMatching) => {
                        self.phase = ErrorPhase::Delete;
                    },
                    Ok(DeviceIdentityState::Absent) => {
                        self.phase = ErrorPhase::Logs;
                    },
                    Ok(DeviceIdentityState::IdentityChanged) => {
                        self.keep(
                            String::from_str("recorded device identity changed; refusing delete"),
                        );
                        self.phase = ErrorPhase::Logs;
                    },
                    Err(error) => {
                        self.keep(said("ambiguous device identity; refusing delete: ", &error));
                        self.phase = ErrorPhase::Logs;
                    },
                }
            },
            ErrorEvent::Present(result) => {
                match result {
                    Ok(there) => {
                        if there {
                            self.keep(
                                String::from_str("unvalidated backing remains after format failure"),
                            );
                            self.finish_keeping();
                        } else {
                            self.phase = ErrorPhase::RemoveTemp;
                        }
                    },
                    Err(error) => {
                        self.keep(said("cannot prove failed-format backing absence: ", &error));
                        self.finish_keeping();
                    },
                }
            },
        }
    }

    /// What the cleanup came to: all errors that it met, in one.
    pub fn result(&self) -> (result: Result<(), LabError>)
        ensures
            match result {
                Ok(()) => self@.errors.len() == 0,
                Err(error) => {
                    &&& self@.errors.len() > 0
                    &&& error@ == (LabErrorKind::Other, joined_with(self@.errors, "; "@))
                },
            },
    {
        if self.errors.len() == 0 {
            return Ok(());
        }
        Err(failure_text(LabErrorKind::Other, join(&self.errors, "; ")))
    }
}

/// The part of a cleanup that a phase belongs to: the child, the device, the directory, the end.
pub open spec fn part_of(phase: ErrorPhase) -> int {
    match phase {
        ErrorPhase::Child => 0,
        ErrorPhase::Identity | ErrorPhase::Delete | ErrorPhase::Disappearance => 1,
        ErrorPhase::LogsOfLiveChild | ErrorPhase::Logs => 2,
        ErrorPhase::Backing | ErrorPhase::BackingAbsence => 3,
        ErrorPhase::RemoveTemp => 4,
        ErrorPhase::Finished => 5,
    }
}

/// Law: a cleanup goes from the child over the device to the temporary directory and never back,
/// and it forgets no error.
pub proof fn law_cleanup_goes_child_device_directory(
    cleanup: ErrorCleanupView,
    event: ErrorEvent,
)
    requires
        cleanup.expects(event),
    ensures
        part_of(cleanup.next(event).phase) > part_of(cleanup.phase) || (cleanup.phase
            == ErrorPhase::Identity && cleanup.next(event).phase == ErrorPhase::Delete) || (
        cleanup.phase == ErrorPhase::Delete && cleanup.next(event).phase
            == ErrorPhase::Disappearance),
        cleanup.errors.is_prefix_of(cleanup.next(event).errors),
{
}

/// Law: a device whose identity has changed or is open is never deleted, and its backing and its
/// directory are kept.
pub proof fn law_unsafe_identity_is_preserved(
    cleanup: ErrorCleanupView,
    state: Observed<DeviceIdentityState>,
)
    requires
        cleanup.phase == ErrorPhase::Identity,
        state is Err || state == Ok::<DeviceIdentityState, LabError>(
            DeviceIdentityState::IdentityChanged,
        ),
    ensures
        cleanup.next(ErrorEvent::State(state)).phase == ErrorPhase::Logs,
        cleanup.next(ErrorEvent::State(state)).must_preserve,
        cleanup.next(ErrorEvent::State(state)).errors.len() > 0,
{
}

/// Law: how a cleanup goes on, for everything that can happen. It begins with the first of what is
/// left: the child, the device, or what the daemon printed. A child that cannot be cleaned up ends
/// it with everything kept. A device is deleted exactly if it is the recorded one, running or
/// stopped, and then waited for. The directory is removed exactly if nothing speaks against it, and
/// its backing validates or, where none was taken, none is there.
pub proof fn law_cleanup_goes_as_far_as_is_safe(
    left: Leftovers,
    cleanup: ErrorCleanupView,
    event: ErrorEvent,
)
    requires
        cleanup.expects(event),
    ensures
        cleanup_of(left).phase == (if left.child {
            ErrorPhase::Child
        } else if left.device {
            ErrorPhase::Identity
        } else {
            ErrorPhase::Logs
        }),
        cleanup_of(left).must_preserve == left.preserve_for_identity,
        cleanup_of(left).errors.len() == 0,
        !cleanup_of(left).preserved,
        ({
            let after = cleanup.next(event);
            let ok = event matches ErrorEvent::Done(Ok(_));
            let bad = event matches ErrorEvent::Done(Err(_));
            &&& cleanup.phase is Child && ok ==> after.phase == (if cleanup.device {
                ErrorPhase::Identity
            } else {
                ErrorPhase::Logs
            })
            &&& cleanup.phase is Child && bad ==> after.phase is LogsOfLiveChild
            &&& cleanup.phase is LogsOfLiveChild ==> after.phase is Finished && (cleanup.temp is Some
                ==> after.preserved)
            &&& after.phase is Delete <==> cleanup.phase is Identity && ((event
                matches ErrorEvent::State(Ok(DeviceIdentityState::Matching))) || (event
                matches ErrorEvent::State(Ok(DeviceIdentityState::StoppedMatching))))
            &&& after.phase is Disappearance <==> cleanup.phase is Delete && ok
            &&& cleanup.phase is Delete && bad ==> after.phase is Logs && after.must_preserve
            &&& cleanup.phase is Disappearance ==> after.phase is Logs && (bad
                ==> after.must_preserve) && (ok ==> after.must_preserve == cleanup.must_preserve)
            &&& cleanup.phase is Identity && (event matches ErrorEvent::State(
                Ok(DeviceIdentityState::Absent),
            )) ==> after == (ErrorCleanupView { phase: ErrorPhase::Logs, ..cleanup })
            &&& cleanup.phase is Logs ==> after.phase == (if cleanup.must_preserve || cleanup.temp
                is None {
                ErrorPhase::Finished
            } else if cleanup.backing {
                ErrorPhase::Backing
            } else {
                ErrorPhase::BackingAbsence
            })
            &&& cleanup.phase is Logs && cleanup.must_preserve && cleanup.temp is Some
                ==> after.preserved
            &&& after.phase is RemoveTemp <==> (cleanup.phase is Backing && ok) || (cleanup.phase
                is BackingAbsence && (event matches ErrorEvent::Present(Ok(false))))
            &&& (cleanup.phase is Backing || cleanup.phase is BackingAbsence) && !(after.phase
                is RemoveTemp) ==> after.phase is Finished && after.must_preserve && (cleanup.temp
                is Some ==> after.preserved)
            &&& cleanup.phase is RemoveTemp ==> after.phase is Finished && after.preserved
                == cleanup.preserved
            &&& after.temp == cleanup.temp
            &&& after.device == cleanup.device
            &&& after.backing == cleanup.backing
        }),
{
}

/// Law: a cleanup reports success exactly if no step of it failed and nothing had to be kept: every
/// failure adds an error, and a success adds none but the note that the directory is kept.
pub proof fn law_every_failure_is_reported(cleanup: ErrorCleanupView, event: ErrorEvent)
    requires
        cleanup.expects(event),
    ensures
        ({
            let after = cleanup.next(event);
            let failed = (event matches ErrorEvent::Done(Err(_))) || (event
                matches ErrorEvent::State(Err(_))) || (event matches ErrorEvent::Present(Err(_)))
                || (event matches ErrorEvent::State(Ok(DeviceIdentityState::IdentityChanged)))
                || (event matches ErrorEvent::Present(Ok(true)));
            let notes_keeping = after.phase is Finished && after.preserved && !cleanup.preserved;
            &&& failed ==> after.errors.len() > cleanup.errors.len()
            &&& !failed && !(cleanup.preserved) ==> after.errors.len() == cleanup.errors.len() + (
            if notes_keeping {
                1int
            } else {
                0
            })
        }),
{
}

/// Whether a cleanup is one that keeps or may still remove the directory, as it should.
pub open spec fn directory_is_safe(cleanup: ErrorCleanupView) -> bool {
    &&& cleanup.phase == ErrorPhase::RemoveTemp || cleanup.phase == ErrorPhase::Backing
        || cleanup.phase == ErrorPhase::BackingAbsence ==> !cleanup.must_preserve
    &&& cleanup.must_preserve && cleanup.phase == ErrorPhase::Finished && cleanup.temp is Some
        ==> cleanup.preserved
}

/// Law: once the directory must be kept, no step removes it, and the cleanup ends by keeping it.
pub proof fn law_kept_directory_is_not_removed(
    left: Leftovers,
    cleanup: ErrorCleanupView,
    event: ErrorEvent,
)
    requires
        cleanup.expects(event),
        directory_is_safe(cleanup),
    ensures
        directory_is_safe(cleanup_of(left)),
        directory_is_safe(cleanup.next(event)),
        cleanup.must_preserve ==> cleanup.next(event).must_preserve,
{
}

} // verus!
