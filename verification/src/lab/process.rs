//! Child processes of the lab: how they end and how their process groups are cleaned up.

use crate::lab::error::{failure_text, LabError, LabErrorKind};
use crate::lab::node::Observed;
use crate::text::push_decimal;
#[allow(unused_imports)]
use crate::text::decimal;
use vstd::prelude::*;

verus! {

/// Milliseconds between two looks at a child.
pub const POLL_INTERVAL_MILLIS: u64 = 10;

/// Seconds that a group has to end after it was asked to.
pub const TERMINATE_GRACE_SECONDS: u64 = 2;

/// Seconds that a killed group has to be reaped.
pub const REAP_GRACE_SECONDS: u64 = 2;

/// No such process.
pub const NO_SUCH_PROCESS: i32 = 3;

/// Not permitted.
pub const NOT_PERMITTED: i32 = 1;

/// No child left.
pub const NO_CHILD: i32 = 10;

/// Interrupted by a signal.
pub const INTERRUPTED: i32 = 4;

/// The signal that ends a process at once.
pub const SIGNAL_KILL: i32 = 9;

/// How a process ended.
#[derive(Debug, PartialEq, Eq)]
pub struct Exit {
    pub code: Option<i32>,
    pub signal: Option<i32>,
    /// The system's words for it.
    pub text: String,
}

impl Exit {
    /// Whether the process reported success.
    pub open spec fn succeeded(self) -> bool {
        self.code == Some(0i32)
    }

    /// Whether the process reported success.
    pub fn success(&self) -> (success: bool)
        ensures
            success == self.succeeded(),
    {
        match self.code {
            Some(code) => code == 0,
            None => false,
        }
    }
}

/// How waiting for a process ended.
#[derive(Debug, PartialEq, Eq)]
pub enum Outcome {
    Exit(Exit),
    Timeout,
}

/// What follows a look at a process.
#[derive(Debug)]
pub enum WaitStep {
    /// It ended, or its time is up.
    Done(Outcome),
    /// Look again after a pause.
    Again,
    /// It cannot be looked at.
    Fail(LabError),
}

/// Decides what follows a look at a process that has until a deadline.
pub fn after_poll(polled: Observed<Option<Exit>>, expired: bool) -> (step: WaitStep)
    ensures
        match polled {
            Err(error) => step matches WaitStep::Fail(found) && found@ == error@,
            Ok(Some(exit)) => step matches WaitStep::Done(outcome) && outcome == Outcome::Exit(
                exit,
            ),
            Ok(None) => if expired {
                step matches WaitStep::Done(outcome) && outcome == Outcome::Timeout
            } else {
                step is Again
            },
        },
{
    match polled {
        Err(error) => WaitStep::Fail(error),
        Ok(Some(exit)) => WaitStep::Done(Outcome::Exit(exit)),
        Ok(None) => {
            if expired {
                WaitStep::Done(Outcome::Timeout)
            } else {
                WaitStep::Again
            }
        },
    }
}

/// What the result of signalling a group means: that the group is gone is no failure.
pub fn signal_result(result: i32, number: i32, error: LabError) -> (outcome: Result<(), LabError>)
    ensures
        match outcome {
            Ok(()) => result == 0 || number == NO_SUCH_PROCESS,
            Err(found) => result != 0 && number != NO_SUCH_PROCESS && found@ == error@,
        },
{
    if result == 0 || number == NO_SUCH_PROCESS {
        Ok(())
    } else {
        Err(error)
    }
}

/// What the result of probing a group means: whether the group is there.
pub fn existence_result(result: i32, number: i32, error: LabError) -> (outcome: Result<
    bool,
    LabError,
>)
    ensures
        match outcome {
            Ok(there) => {
                &&& result == 0 || number == NO_SUCH_PROCESS || number == NOT_PERMITTED
                &&& there == (result == 0 || number == NOT_PERMITTED)
            },
            Err(found) => {
                &&& result != 0 && number != NO_SUCH_PROCESS && number != NOT_PERMITTED
                &&& found@ == error@
            },
        },
{
    if result == 0 {
        Ok(true)
    } else if number == NO_SUCH_PROCESS {
        Ok(false)
    } else if number == NOT_PERMITTED {
        Ok(true)
    } else {
        Err(error)
    }
}

/// What follows an attempt to reap a member of a group.
#[derive(Debug)]
pub enum ReapStep {
    /// Try again at once.
    Again,
    /// Try again after a pause.
    Pause,
    /// There is nothing more to reap.
    Done,
    /// The group cannot be reaped.
    Fail(LabError),
}

/// Decides what follows an attempt to reap what is ready in a group.
pub fn reap_available_step(result: i32, number: i32, error: LabError) -> (step: ReapStep)
    ensures
        if result > 0 || (result < 0 && number == INTERRUPTED) {
            step is Again
        } else if result == 0 || number == NO_CHILD {
            step is Done
        } else {
            step matches ReapStep::Fail(found) && found@ == error@
        },
{
    if result > 0 {
        ReapStep::Again
    } else if result == 0 {
        ReapStep::Done
    } else if number == NO_CHILD {
        ReapStep::Done
    } else if number == INTERRUPTED {
        ReapStep::Again
    } else {
        ReapStep::Fail(error)
    }
}

/// What is said of a group that cannot be reaped in time.
pub open spec fn group_not_reaped(group: int) -> (LabErrorKind, Seq<char>) {
    (LabErrorKind::TimedOut, "process group "@ + decimal(group) + " did not reap"@)
}

/// Decides what follows an attempt to reap a whole group before a deadline.
pub fn reap_step(group: u32, result: i32, number: i32, error: LabError, expired: bool) -> (step:
    ReapStep)
    ensures
        if result > 0 || (result < 0 && number == INTERRUPTED) {
            step is Again
        } else if result < 0 {
            if number == NO_CHILD {
                step is Done
            } else {
                step matches ReapStep::Fail(found) && found@ == error@
            }
        } else if expired {
            step matches ReapStep::Fail(found) && found@ == group_not_reaped(group as int)
        } else {
            step is Pause
        },
{
    if result > 0 {
        return ReapStep::Again;
    }
    if result < 0 {
        if number == NO_CHILD {
            return ReapStep::Done;
        }
        if number == INTERRUPTED {
            return ReapStep::Again;
        }
        return ReapStep::Fail(error);
    }
    if expired {
        let mut message = String::from_str("process group ");
        push_decimal(&mut message, group as u64);
        message.append(" did not reap");
        ReapStep::Fail(failure_text(LabErrorKind::TimedOut, message))
    } else {
        ReapStep::Pause
    }
}

/// Where the cleanup of a process group stands, and what it waits for.
#[derive(Clone, Copy, Debug, PartialEq, Eq, Structural)]
pub enum CleanupPhase {
    /// Ask the group to end.
    Terminate,
    /// Read the clock against the time that the group has to end.
    GraceClock,
    /// Look at the leader.
    GracePoll,
    /// Reap what is ready in the group.
    ReapAvailable,
    /// See whether the group is there.
    CheckGroup,
    /// Kill the group.
    Kill,
    /// Look at the leader, and read the clock if it has not ended.
    KillPoll,
    /// Reap the whole group.
    ReapGroup,
    /// Nothing is left to do.
    Finished,
}

/// What came of the step that a cleanup waits for.
#[derive(Debug)]
pub enum CleanupEvent {
    /// A signal was sent or a group was reaped.
    Done(Observed<()>),
    /// The clock was read: whether the time is up.
    Clock(bool),
    /// The leader was looked at: whether it has ended.
    Polled(Observed<bool>),
    /// The leader was looked at: whether it has ended, and whether the time is up.
    PolledBy(Observed<bool>, bool),
    /// Whether the group is there.
    Group(Observed<bool>),
}

/// The cleanup of a child's process group: a request to end, time to do so, then force.
#[derive(Debug)]
pub struct ChildCleanup {
    pub group: u32,
    pub phase: CleanupPhase,
    pub first_error: Option<LabError>,
}

/// The meaning of a cleanup.
pub ghost struct ChildCleanupView {
    pub group: u32,
    pub phase: CleanupPhase,
    pub first_error: Option<(LabErrorKind, Seq<char>)>,
}

impl View for ChildCleanup {
    type V = ChildCleanupView;

    open spec fn view(&self) -> ChildCleanupView {
        ChildCleanupView {
            group: self.group,
            phase: self.phase,
            first_error: match self.first_error {
                None => None,
                Some(error) => Some(error@),
            },
        }
    }
}

impl ChildCleanupView {
    /// A cleanup in another phase.
    pub open spec fn to(self, phase: CleanupPhase) -> ChildCleanupView {
        ChildCleanupView { phase, ..self }
    }

    /// A cleanup that has met an error; the first one is kept.
    pub open spec fn noting(self, error: (LabErrorKind, Seq<char>)) -> ChildCleanupView {
        ChildCleanupView {
            first_error: if self.first_error is Some {
                self.first_error
            } else {
                Some(error)
            },
            ..self
        }
    }

    /// The cleanup of `group` at its start; there is nothing to do for one that was cleaned.
    pub open spec fn begun(group: u32, cleaned: bool) -> ChildCleanupView {
        ChildCleanupView {
            group,
            phase: if cleaned {
                CleanupPhase::Finished
            } else {
                CleanupPhase::Terminate
            },
            first_error: None,
        }
    }

    /// Whether the cleanup has come to its end without an error.
    pub open spec fn succeeded(self) -> bool {
        self.phase == CleanupPhase::Finished && self.first_error is None
    }

    /// Whether `event` is what the cleanup waits for.
    pub open spec fn expects(self, event: CleanupEvent) -> bool {
        match self.phase {
            CleanupPhase::Terminate
            | CleanupPhase::ReapAvailable
            | CleanupPhase::Kill
            | CleanupPhase::ReapGroup => event is Done,
            CleanupPhase::GraceClock => event is Clock,
            CleanupPhase::GracePoll => event is Polled,
            CleanupPhase::KillPoll => event is PolledBy,
            CleanupPhase::CheckGroup => event is Group,
            CleanupPhase::Finished => false,
        }
    }

    /// What is said of a leader that cannot be reaped in time.
    pub open spec fn leader_not_reaped(self) -> (LabErrorKind, Seq<char>) {
        (
            LabErrorKind::TimedOut,
            "process-group leader "@ + decimal(self.group as int) + " did not reap"@,
        )
    }

    /// The cleanup after an event.
    pub open spec fn next(self, event: CleanupEvent) -> ChildCleanupView {
        match (self.phase, event) {
            (CleanupPhase::Terminate, CleanupEvent::Done(result)) => match result {
                Ok(()) => self.to(CleanupPhase::GraceClock),
                Err(error) => self.noting(error@).to(CleanupPhase::GraceClock),
            },
            (CleanupPhase::GraceClock, CleanupEvent::Clock(expired)) => if expired {
                self.to(CleanupPhase::Kill)
            } else {
                self.to(CleanupPhase::GracePoll)
            },
            (CleanupPhase::GracePoll, CleanupEvent::Polled(result)) => match result {
                Ok(true) => self.to(CleanupPhase::ReapAvailable),
                Ok(false) => self.to(CleanupPhase::CheckGroup),
                Err(error) => self.noting(error@).to(CleanupPhase::Kill),
            },
            (CleanupPhase::ReapAvailable, CleanupEvent::Done(result)) => match result {
                Ok(()) => self.to(CleanupPhase::CheckGroup),
                Err(error) => self.noting(error@).to(CleanupPhase::Kill),
            },
            (CleanupPhase::CheckGroup, CleanupEvent::Group(result)) => match result {
                Ok(true) => self.to(CleanupPhase::GraceClock),
                Ok(false) => self.to(CleanupPhase::Kill),
                Err(error) => self.noting(error@).to(CleanupPhase::Kill),
            },
            (CleanupPhase::Kill, CleanupEvent::Done(result)) => match result {
                Ok(()) => self.to(CleanupPhase::KillPoll),
                Err(error) => self.noting(error@).to(CleanupPhase::KillPoll),
            },
            (CleanupPhase::KillPoll, CleanupEvent::PolledBy(result, expired)) => match result {
                Ok(true) => self.to(CleanupPhase::ReapGroup),
                Ok(false) => if expired {
                    self.noting(self.leader_not_reaped()).to(CleanupPhase::ReapGroup)
                } else {
                    self
                },
                Err(error) => self.noting(error@).to(CleanupPhase::ReapGroup),
            },
            (CleanupPhase::ReapGroup, CleanupEvent::Done(result)) => match result {
                Ok(()) => self.to(CleanupPhase::Finished),
                Err(error) => self.noting(error@).to(CleanupPhase::Finished),
            },
            _ => self,
        }
    }

    /// The cleanup after `events`, one after the other.
    pub open spec fn after(self, events: Seq<CleanupEvent>) -> ChildCleanupView
        decreases events.len(),
    {
        if events.len() == 0 {
            self
        } else {
            self.after(events.drop_last()).next(events.last())
        }
    }

    /// Whether each of `events` is what the cleanup waits for when it comes.
    pub open spec fn follows(self, events: Seq<CleanupEvent>) -> bool
        decreases events.len(),
    {
        events.len() == 0 || {
            &&& self.follows(events.drop_last())
            &&& self.after(events.drop_last()).expects(events.last())
        }
    }
}

impl CleanupEvent {
    /// Whether a step of the cleanup failed.
    pub open spec fn failed(self) -> bool {
        match self {
            CleanupEvent::Done(result) => result is Err,
            CleanupEvent::Clock(_) => false,
            CleanupEvent::Polled(result)
            | CleanupEvent::PolledBy(result, _)
            | CleanupEvent::Group(result) => result is Err,
        }
    }
}

impl ChildCleanup {
    /// The cleanup of `group`, about to ask it to end.
    pub fn new(group: u32) -> (cleanup: ChildCleanup)
        ensures
            cleanup@ == (ChildCleanupView {
                group,
                phase: CleanupPhase::Terminate,
                first_error: None,
            }),
    {
        ChildCleanup { group, phase: CleanupPhase::Terminate, first_error: None }
    }

    /// The cleanup of `group`, which does nothing where the group was `cleaned`.
    pub fn begin(group: u32, cleaned: bool) -> (cleanup: ChildCleanup)
        ensures
            cleanup@ == ChildCleanupView::begun(group, cleaned),
            cleaned ==> cleanup.phase == CleanupPhase::Finished && cleanup@.first_error is None,
    {
        let mut cleanup = ChildCleanup::new(group);
        if cleaned {
            cleanup.phase = CleanupPhase::Finished;
        }
        cleanup
    }

    fn note(&mut self, error: LabError)
        ensures
            final(self)@ == old(self)@.noting(error@),
    {
        if self.first_error.is_none() {
            self.first_error = Some(error);
        }
    }

    fn note_failure(&mut self, result: Observed<()>) -> (failed: bool)
        ensures
            failed == (result is Err),
            match result {
                Ok(()) => final(self)@ == old(self)@,
                Err(error) => final(self)@ == old(self)@.noting(error@),
            },
    {
        match result {
            Ok(()) => false,
            Err(error) => {
                self.note(error);
                true
            },
        }
    }

    /// Takes what came of the step that the cleanup waits for.
    pub fn advance(&mut self, event: CleanupEvent)
        requires
            old(self)@.expects(event),
        ensures
            final(self)@ == old(self)@.next(event),
    {
        match event {
            CleanupEvent::Done(result) => {
                let phase = self.phase;
                let failed = self.note_failure(result);
                self.phase = match phase {
                    CleanupPhase::Terminate => CleanupPhase::GraceClock,
                    CleanupPhase::ReapAvailable => if failed {
                        CleanupPhase::Kill
                    } else {
                        CleanupPhase::CheckGroup
                    },
                    CleanupPhase::Kill => CleanupPhase::KillPoll,
                    _ => CleanupPhase::Finished,
                };
            },
            CleanupEvent::Clock(expired) => {
                self.phase = if expired {
                    CleanupPhase::Kill
                } else {
                    CleanupPhase::GracePoll
                };
            },
            CleanupEvent::Polled(result) => {
                match result {
                    Ok(ended) => {
                        self.phase = if ended {
                            CleanupPhase::ReapAvailable
                        } else {
                            CleanupPhase::CheckGroup
                        };
                    },
                    Err(error) => {
                        self.note(error);
                        self.phase = CleanupPhase::Kill;
                    },
                }
            },
            CleanupEvent::Group(result) => {
                match result {
                    Ok(there) => {
                        self.phase = if there {
                            CleanupPhase::GraceClock
                        } else {
                            CleanupPhase::Kill
                        };
                    },
                    Err(error) => {
                        self.note(error);
                        self.phase = CleanupPhase::Kill;
                    },
                }
            },
            CleanupEvent::PolledBy(result, expired) => {
                match result {
                    Ok(ended) => {
                        if ended {
                            self.phase = CleanupPhase::ReapGroup;
                        } else if expired {
                            let mut message = String::from_str("process-group leader ");
                            push_decimal(&mut message, self.group as u64);
                            message.append(" did not reap");
                            self.note(failure_text(LabErrorKind::TimedOut, message));
                            self.phase = CleanupPhase::ReapGroup;
                        }
                    },
                    Err(error) => {
                        self.note(error);
                        self.phase = CleanupPhase::ReapGroup;
                    },
                }
            },
        }
    }

    /// What the cleanup came to: the first error that it met, if any.
    pub fn result(self) -> (result: Result<(), LabError>)
        ensures
            match result {
                Ok(()) => self@.first_error is None,
                Err(error) => self@.first_error == Some(error@),
            },
    {
        match self.first_error {
            None => Ok(()),
            Some(error) => Err(error),
        }
    }
}

/// The process group of a child, and whether it was cleaned up.
#[derive(Debug)]
pub struct ChildGroup {
    group: u32,
    cleaned: bool,
}

impl ChildGroup {
    /// The group.
    pub closed spec fn number(self) -> u32 {
        self.group
    }

    /// Whether the group is no longer to be cleaned up.
    pub closed spec fn is_cleaned(self) -> bool {
        self.cleaned
    }

    /// The group of a child that was just started.
    pub fn new(group: u32) -> (child: ChildGroup)
        ensures
            child.number() == group,
            !child.is_cleaned(),
    {
        ChildGroup { group, cleaned: false }
    }

    pub fn group(&self) -> (group: u32)
        ensures
            group == self.number(),
    {
        self.group
    }

    pub fn cleaned(&self) -> (cleaned: bool)
        ensures
            cleaned == self.is_cleaned(),
    {
        self.cleaned
    }

    /// Leaves the group alone: it is not cleaned up any more.
    pub fn preserve(&mut self)
        ensures
            final(self).is_cleaned(),
            final(self).number() == old(self).number(),
    {
        self.cleaned = true;
    }

    /// Begins to clean up the group, unless that is no longer to be done.
    pub fn begin_cleanup(&self) -> (cleanup: ChildCleanup)
        ensures
            cleanup@ == ChildCleanupView::begun(self.number(), self.is_cleaned()),
    {
        ChildCleanup::begin(self.group, self.cleaned)
    }

    /// Takes what a cleanup that has come to its end came to. The group is to be cleaned up again
    /// if and only if there was an error.
    pub fn end_cleanup(&mut self, cleanup: ChildCleanup) -> (result: Result<(), LabError>)
        requires
            cleanup@.phase == CleanupPhase::Finished,
            cleanup@.group == old(self).number(),
        ensures
            match result {
                Ok(()) => cleanup@.succeeded(),
                Err(error) => cleanup@.first_error == Some(error@),
            },
            final(self).number() == old(self).number(),
            final(self).is_cleaned() == (old(self).is_cleaned() || result is Ok),
    {
        let result = cleanup.result();
        if result.is_ok() {
            self.cleaned = true;
        }
        result
    }
}

/// How far a cleanup is from its end, leaving out the turns in which it waits.
pub open spec fn cleanup_rank(phase: CleanupPhase) -> int {
    match phase {
        CleanupPhase::Terminate => 4,
        CleanupPhase::GraceClock
        | CleanupPhase::GracePoll
        | CleanupPhase::ReapAvailable
        | CleanupPhase::CheckGroup => 3,
        CleanupPhase::Kill => 2,
        CleanupPhase::KillPoll => 1,
        CleanupPhase::ReapGroup | CleanupPhase::Finished => 0,
    }
}

/// Law: a cleanup never turns back, and the first error that it meets is the one that it reports.
pub proof fn law_cleanup_never_turns_back(cleanup: ChildCleanupView, event: CleanupEvent)
    requires
        cleanup.expects(event),
    ensures
        cleanup_rank(cleanup.next(event).phase) <= cleanup_rank(cleanup.phase),
        cleanup.first_error is Some ==> cleanup.next(event).first_error == cleanup.first_error,
        cleanup.next(event).group == cleanup.group,
{
}

/// Law: a cleanup ends only by reaping the group, it reaps the group only behind a kill, and it
/// goes over to the kill as soon as the time to end is up.
pub proof fn law_cleanup_kills_before_it_reaps(cleanup: ChildCleanupView, event: CleanupEvent)
    requires
        cleanup.expects(event),
    ensures
        cleanup.next(event).phase == CleanupPhase::Finished ==> cleanup.phase
            == CleanupPhase::ReapGroup,
        cleanup.next(event).phase == CleanupPhase::ReapGroup ==> cleanup.phase
            == CleanupPhase::KillPoll,
        cleanup.next(event).phase == CleanupPhase::KillPoll ==> cleanup.phase == CleanupPhase::Kill
            || cleanup.phase == CleanupPhase::KillPoll,
        event == CleanupEvent::Clock(true) ==> cleanup.next(event).phase == CleanupPhase::Kill,
{
}

/// How a cleanup that has met no error came to where it is.
pub open spec fn cleanup_so_far(start: ChildCleanupView, events: Seq<CleanupEvent>) -> bool {
    let last = events.len() - 1;
    match start.after(events).phase {
        CleanupPhase::KillPoll => killed_within(start, events, last + 1),
        CleanupPhase::ReapGroup => {
            &&& last >= 0
            &&& events[last] matches CleanupEvent::PolledBy(Ok(true), _)
            &&& start.after(events.take(last)).phase == CleanupPhase::KillPoll
            &&& killed_within(start, events, last)
        },
        CleanupPhase::Finished => {
            &&& last >= 1
            &&& events[last] matches CleanupEvent::Done(Ok(_))
            &&& start.after(events.take(last)).phase == CleanupPhase::ReapGroup
            &&& events[last - 1] matches CleanupEvent::PolledBy(Ok(true), _)
            &&& start.after(events.take(last - 1)).phase == CleanupPhase::KillPoll
            &&& killed_within(start, events, last - 1)
        },
        _ => true,
    }
}

/// Whether the group was killed by one of the first `count` events.
pub open spec fn killed_within(
    start: ChildCleanupView,
    events: Seq<CleanupEvent>,
    count: int,
) -> bool {
    exists|i: int|
        0 <= i < count && (#[trigger] events[i] matches CleanupEvent::Done(Ok(_))) && start.after(
            events.take(i),
        ).phase == CleanupPhase::Kill
}

/// A cleanup keeps to its group, and one that has met no error has seen every step through.
proof fn lemma_cleanup_so_far(group: u32, events: Seq<CleanupEvent>)
    requires
        ChildCleanupView::begun(group, false).follows(events),
    ensures
        ({
            let start = ChildCleanupView::begun(group, false);
            &&& start.after(events).group == group
            &&& start.after(events).first_error is None ==> cleanup_so_far(start, events)
            &&& start.after(events).first_error is None ==> forall|i: int|
                0 <= i < events.len() ==> !(#[trigger] events[i]).failed()
        }),
    decreases events.len(),
{
    let start = ChildCleanupView::begun(group, false);
    if events.len() > 0 {
        let before = events.drop_last();
        let last = events.len() - 1;
        lemma_cleanup_so_far(group, before);
        assert(events.take(last) =~= before);
        assert forall|i: int| 0 <= i < last implies before[i] == #[trigger] events[i]
            && before.take(i) =~= events.take(i) by {}
        if start.after(events).first_error is None {
            assert(start.after(before).first_error is None);
            assert(!events[last].failed());
            assert forall|count: int|
                0 <= count <= last && #[trigger] killed_within(
                    start,
                    before,
                    count,
                ) implies killed_within(start, events, count) by {
                let i = choose|i: int|
                    0 <= i < count && (#[trigger] before[i] matches CleanupEvent::Done(Ok(_)))
                        && start.after(before.take(i)).phase == CleanupPhase::Kill;
                assert(events[i] == before[i] && before.take(i) =~= events.take(i));
            }
            match start.after(before).phase {
                CleanupPhase::Kill => {
                    assert(events[last] matches CleanupEvent::Done(Ok(_)));
                    assert(killed_within(start, events, last + 1));
                },
                CleanupPhase::KillPoll => {
                    assert(killed_within(start, before, last));
                    assert(killed_within(start, events, last));
                    assert(killed_within(start, events, last + 1)) by {
                        let i = choose|i: int|
                            0 <= i < last && (#[trigger] events[i] matches CleanupEvent::Done(Ok(_)))
                                && start.after(events.take(i)).phase == CleanupPhase::Kill;
                        assert(events[i] matches CleanupEvent::Done(Ok(_)));
                    }
                },
                CleanupPhase::ReapGroup => {
                    assert(killed_within(start, before, last - 1));
                    assert(events[last - 1] == before[last - 1]);
                    assert(before.take(last - 1) =~= events.take(last - 1));
                },
                _ => {},
            }
        }
    }
}

/// Law: a cleanup that succeeds leaves nothing of the group: no step of it failed, the group was
/// killed, then its leader was seen to have ended, and at last the whole group was reaped. All of
/// it went to that one group.
pub proof fn law_successful_cleanup_leaves_nothing(group: u32, events: Seq<CleanupEvent>)
    requires
        ChildCleanupView::begun(group, false).follows(events),
        ChildCleanupView::begun(group, false).after(events).succeeded(),
    ensures
        ({
            let start = ChildCleanupView::begun(group, false);
            let last = events.len() - 1;
            &&& start.after(events).group == group
            &&& forall|i: int| 0 <= i < events.len() ==> !(#[trigger] events[i]).failed()
            &&& last >= 1
            &&& events[last] matches CleanupEvent::Done(Ok(_))
            &&& start.after(events.take(last)).phase == CleanupPhase::ReapGroup
            &&& events[last - 1] matches CleanupEvent::PolledBy(Ok(true), _)
            &&& start.after(events.take(last - 1)).phase == CleanupPhase::KillPoll
            &&& killed_within(start, events, last - 1)
        }),
{
    lemma_cleanup_so_far(group, events);
}

/// Law: a second cleanup after one that succeeded, or after the group was to be left alone, is a
/// success at once and waits for nothing, so that it sends no signal.
pub proof fn law_second_cleanup_does_nothing(group: u32, events: Seq<CleanupEvent>)
    requires
        ChildCleanupView::begun(group, true).follows(events),
    ensures
        ChildCleanupView::begun(group, true).succeeded(),
        events.len() == 0,
    decreases events.len(),
{
    if events.len() > 0 {
        law_second_cleanup_does_nothing(group, events.drop_last());
    }
}

/// Reports that waiting for a child failed, and that its cleanup failed too where it did.
pub fn cleanup_after_error(operation: &str, error: LabError, cleanup: Result<(), LabError>) -> (result:
    LabError)
    ensures
        match cleanup {
            Ok(()) => result@ == error@,
            Err(second) => result@ == (
                LabErrorKind::Other,
                operation@ + " failed: "@ + error@.1 + "; cleanup failed: "@ + second@.1,
            ),
        },
{
    match cleanup {
        Ok(()) => error,
        Err(second) => {
            let mut message = String::from_str(operation);
            message.append(" failed: ");
            message.append(error.message.as_str());
            message.append("; cleanup failed: ");
            message.append(second.message.as_str());
            failure_text(LabErrorKind::Other, message)
        },
    }
}

/// Law: how a cleanup goes on, for everything that can happen. After it has asked the group to end
/// it looks, as long as there is time, whether the leader has ended, reaps what is ready when it
/// has, and waits on exactly while the group is there; then it kills, whether or not that was
/// needed, waits for the leader as long as there is time, and reaps the group. No error stops it,
/// and the first one is kept.
pub proof fn law_cleanup_goes_on(cleanup: ChildCleanupView, event: CleanupEvent)
    requires
        cleanup.expects(event),
    ensures
        ({
            let after = cleanup.next(event);
            &&& cleanup.phase is Terminate ==> after.phase is GraceClock
            &&& cleanup.phase is GraceClock ==> after.phase == (if event == CleanupEvent::Clock(true) {
                CleanupPhase::Kill
            } else {
                CleanupPhase::GracePoll
            })
            &&& cleanup.phase is GracePoll ==> after.phase == (if event.failed() {
                CleanupPhase::Kill
            } else if event matches CleanupEvent::Polled(Ok(true)) {
                CleanupPhase::ReapAvailable
            } else {
                CleanupPhase::CheckGroup
            })
            &&& cleanup.phase is ReapAvailable ==> after.phase == (if event.failed() {
                CleanupPhase::Kill
            } else {
                CleanupPhase::CheckGroup
            })
            &&& cleanup.phase is CheckGroup ==> after.phase == (if event
                matches CleanupEvent::Group(Ok(true)) {
                CleanupPhase::GraceClock
            } else {
                CleanupPhase::Kill
            })
            &&& cleanup.phase is Kill ==> after.phase is KillPoll
            &&& cleanup.phase is KillPoll ==> after.phase == (if event
                matches CleanupEvent::PolledBy(Ok(false), false) {
                CleanupPhase::KillPoll
            } else {
                CleanupPhase::ReapGroup
            })
            &&& cleanup.phase is ReapGroup ==> after.phase is Finished
            &&& after.first_error is None <==> cleanup.first_error is None && !event.failed() && !(
            event matches CleanupEvent::PolledBy(Ok(false), true))
            &&& after.group == cleanup.group
        }),
{
}

} // verus!
