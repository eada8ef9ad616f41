//! Running the project's tests one by one under deadlines.

use crate::lab::command::CommandLine;
#[allow(unused_imports)]
use crate::lab::command::CommandView;
use crate::lab::config::{Config, Mode, Span};
use crate::lab::error::LabError;
use crate::lab::process::Outcome;
use crate::text::{chars_of, lines, push_base, push_decimal, string_of, strip_suffix};
#[allow(unused_imports)]
use crate::text::{
    base_digits, base_value, decimal, has_suffix, law_base_digits_denote_their_number, lines_of,
    power, string_views, views,
};
use vstd::prelude::*;

verus! {

/// How many groups of tests there are.
pub const GROUP_COUNT: usize = 5;

/// A group of tests that one target holds.
#[derive(Clone, Copy, Debug)]
pub struct TestGroup {
    pub label: &'static str,
    pub target: &'static str,
}

/// The label of a group.
pub open spec fn group_label(group: int) -> Seq<char> {
    if group == 0 {
        "library"@
    } else if group == 1 {
        "binary"@
    } else if group == 2 {
        "lab"@
    } else if group == 3 {
        "mount-helper"@
    } else {
        "doc"@
    }
}

/// The target of a group.
pub open spec fn group_target(group: int) -> Seq<char> {
    if group == 0 {
        "--lib"@
    } else if group == 1 {
        "--bin=block-storage-ublk"@
    } else if group == 2 {
        "--bin=block-storage-lab"@
    } else if group == 3 {
        "--bin=block-storage-mount"@
    } else {
        "--doc"@
    }
}

/// Group `group` of the tests.
pub fn test_group(group: usize) -> (found: TestGroup)
    requires
        group < GROUP_COUNT,
    ensures
        found.label@ == group_label(group as int),
        found.target@ == group_target(group as int),
{
    if group == 0 {
        TestGroup { label: "library", target: "--lib" }
    } else if group == 1 {
        TestGroup { label: "binary", target: "--bin=block-storage-ublk" }
    } else if group == 2 {
        TestGroup { label: "lab", target: "--bin=block-storage-lab" }
    } else if group == 3 {
        TestGroup { label: "mount-helper", target: "--bin=block-storage-mount" }
    } else {
        TestGroup { label: "doc", target: "--doc" }
    }
}

/// The environment of a test run.
pub open spec fn run_env(mode: Mode) -> Seq<(Seq<char>, Seq<char>)> {
    if mode == Mode::EngineCrash {
        seq![("BLOCK_STORAGE_CRASH_TEST_MODE"@, "acceptance"@)]
    } else {
        Seq::empty()
    }
}

/// The command that lists the tests of a group.
pub fn list_command(mode: Mode, group: usize) -> (command: CommandLine)
    requires
        group < GROUP_COUNT,
    ensures
        command@ == (CommandView {
            program: "cargo"@,
            args: seq![
                "test"@,
                "--quiet"@,
                group_target(group as int),
                "--"@,
                "--list"@,
            ],
            env: run_env(mode),
        }),
{
    let mut command = CommandLine::new("cargo");
    command.arg("test");
    command.arg("--quiet");
    command.arg(test_group(group).target);
    command.arg("--");
    command.arg("--list");
    if mode == Mode::EngineCrash {
        command.set_env("BLOCK_STORAGE_CRASH_TEST_MODE", "acceptance");
    }
    assert(command@.args =~= seq![
        "test"@,
        "--quiet"@,
        group_target(group as int),
        "--"@,
        "--list"@,
    ]);
    assert(command@.env =~= run_env(mode));
    command
}

/// The command that runs one test of a group.
pub fn test_command(mode: Mode, group: usize, test: &str) -> (command: CommandLine)
    requires
        group < GROUP_COUNT,
    ensures
        command@ == (CommandView {
            program: "cargo"@,
            args: seq![
                "test"@,
                "--quiet"@,
                group_target(group as int),
                test@,
                "--"@,
                "--exact"@,
            ],
            env: run_env(mode),
        }),
{
    let mut command = CommandLine::new("cargo");
    command.arg("test");
    command.arg("--quiet");
    command.arg(test_group(group).target);
    command.arg(test);
    command.arg("--");
    command.arg("--exact");
    if mode == Mode::EngineCrash {
        command.set_env("BLOCK_STORAGE_CRASH_TEST_MODE", "acceptance");
    }
    assert(command@.args =~= seq![
        "test"@,
        "--quiet"@,
        group_target(group as int),
        test@,
        "--"@,
        "--exact"@,
    ]);
    assert(command@.env =~= run_env(mode));
    command
}

/// The names of the tests in a listing: the lines that end in `: test`, without that ending.
pub open spec fn test_names(lines: Seq<Seq<char>>) -> Seq<Seq<char>>
    decreases lines.len(),
{
    if lines.len() == 0 {
        Seq::empty()
    } else {
        let before = test_names(lines.drop_last());
        if has_suffix(lines.last(), ": test"@) {
            before.push(lines.last().take(lines.last().len() - ": test"@.len()))
        } else {
            before
        }
    }
}

/// The names of the tests in a listing.
pub fn parse_test_list(output: &str) -> (tests: Vec<String>)
    ensures
        string_views(tests@) == test_names(lines_of(output@)),
{
    let text = chars_of(output);
    let all = lines(text.as_slice());
    let mut tests: Vec<String> = Vec::new();
    let mut i: usize = 0;
    let ghost listed = lines_of(output@);
    assert(listed.take(0) =~= Seq::<Seq<char>>::empty());
    assert(string_views(tests@) =~= Seq::<Seq<char>>::empty());
    while i < all.len()
        invariant
            i <= all@.len(),
            views(all@) == listed,
            string_views(tests@) == test_names(listed.take(i as int)),
        decreases all@.len() - i,
    {
        let ghost before = tests@;
        proof {
            assert(views(all@)[i as int] == all@[i as int]@);
            assert(listed.take(i + 1).drop_last() =~= listed.take(i as int));
            assert(listed.take(i + 1).last() == all@[i as int]@);
        }
        match strip_suffix(all[i].as_slice(), ": test") {
            Some(name) => {
                tests.push(string_of(name));
                assert(string_views(tests@) =~= string_views(before).push(name@));
            },
            None => {},
        }
        i = i + 1;
    }
    assert(listed.take(all@.len() as int) =~= listed);
    tests
}

/// A length of time in seconds and milliseconds.
pub open spec fn duration_text(duration: Span) -> Seq<char> {
    decimal(duration.secs as int) + "."@ + base_digits(duration.nanos as int / 1_000_000, 10, 3) + "s"@
}

/// Writes a length of time in seconds and milliseconds.
pub fn format_duration(duration: Span) -> (text: String)
    requires
        duration.wf(),
    ensures
        text@ == duration_text(duration),
{
    let mut text = String::from_str("");
    proof {
        reveal_strlit("");
    }
    push_decimal(&mut text, duration.secs);
    text.append(".");
    push_base(&mut text, (duration.nanos / 1_000_000) as u64, 10, 3);
    text.append("s");
    assert(""@ + decimal(duration.secs as int) =~= decimal(duration.secs as int));
    text
}

/// The mark of a test that took longer than `threshold`.
pub open spec fn slow_text(elapsed: Span, threshold: Span) -> Seq<char> {
    if elapsed.total() > threshold.total() {
        " SLOW(>"@ + decimal(threshold.secs as int) + "s)"@
    } else {
        Seq::empty()
    }
}

/// Marks a test that took longer than `threshold`.
pub fn slow_marker(elapsed: Span, threshold: Span) -> (text: String)
    requires
        elapsed.wf(),
        threshold.wf(),
    ensures
        text@ == slow_text(elapsed, threshold),
{
    if elapsed.longer_than(&threshold) {
        let mut text = String::from_str(" SLOW(>");
        push_decimal(&mut text, threshold.secs);
        text.append("s)");
        text
    } else {
        String::new()
    }
}

/// How a test ended.
#[derive(Debug)]
pub enum TestOutcome {
    Passed,
    /// It ended without success; this is how its status reads.
    Failed(String),
    TimedOut,
}

/// A line to print.
#[derive(Debug, PartialEq, Eq)]
pub struct OutputLine {
    /// Whether it goes to standard error.
    pub error: bool,
    pub text: String,
}

/// What the suite does next.
#[derive(Clone, Copy, Debug, PartialEq, Eq, Structural)]
pub enum SuiteAction {
    /// List the tests of the current group.
    List,
    /// See whether the suite's deadline has passed.
    CheckClock,
    /// Run the current test.
    RunTest,
    /// Stop; whether everything passed.
    Finish(bool),
}

/// What to print, and what comes next.
#[derive(Debug)]
pub struct SuiteStep {
    /// Whether the captured output is printed to standard error first.
    pub show_output: bool,
    pub line: Option<OutputLine>,
    pub action: SuiteAction,
}

/// The meaning of a step.
pub ghost struct SuiteStepView {
    pub show_output: bool,
    pub line: Option<(bool, Seq<char>)>,
    pub action: SuiteAction,
}

impl View for SuiteStep {
    type V = SuiteStepView;

    open spec fn view(&self) -> SuiteStepView {
        SuiteStepView {
            show_output: self.show_output,
            line: match self.line {
                Some(line) => Some((line.error, line.text@)),
                None => None,
            },
            action: self.action,
        }
    }
}

/// A run of the suite: the current group, its tests, and which of them is next.
pub struct SuiteRun {
    pub config: Config,
    pub group: usize,
    pub tests: Vec<String>,
    pub next: usize,
}

/// The meaning of a run.
pub ghost struct SuiteRunView {
    pub config: Config,
    pub group: int,
    pub tests: Seq<Seq<char>>,
    pub next: int,
}

impl View for SuiteRun {
    type V = SuiteRunView;

    open spec fn view(&self) -> SuiteRunView {
        SuiteRunView {
            config: self.config,
            group: self.group as int,
            tests: string_views(self.tests@),
            next: self.next as int,
        }
    }
}

impl SuiteRunView {
    /// A group is current, and the limits are lengths of time.
    pub open spec fn wf(self) -> bool {
        &&& 0 <= self.group < GROUP_COUNT
        &&& self.config.slow.wf() && self.config.per_test.wf() && self.config.suite.wf()
    }

    /// After the current group.
    pub open spec fn next_group(self) -> (SuiteRunView, SuiteAction) {
        if self.group + 1 < GROUP_COUNT {
            (SuiteRunView { group: self.group + 1, ..self }, SuiteAction::List)
        } else {
            (self, SuiteAction::Finish(true))
        }
    }

    /// After the current group was listed.
    pub open spec fn listed(self, success: bool, output: Seq<char>) -> (
        SuiteRunView,
        SuiteStepView,
    ) {
        let label = group_label(self.group);
        if !success {
            (
                self,
                SuiteStepView {
                    show_output: true,
                    line: Some((true, "FAILED: could not list ["@ + label + "] tests"@)),
                    action: SuiteAction::Finish(false),
                },
            )
        } else {
            let tests = test_names(lines_of(output));
            let found = SuiteRunView { tests, next: 0, ..self };
            if tests.len() == 0 {
                let (after, action) = found.next_group();
                (
                    after,
                    SuiteStepView {
                        show_output: false,
                        line: Some((false, "["@ + label + "] no tests"@)),
                        action,
                    },
                )
            } else {
                (
                    found,
                    SuiteStepView {
                        show_output: false,
                        line: None,
                        action: SuiteAction::CheckClock,
                    },
                )
            }
        }
    }

    /// What is printed when the suite takes too long.
    pub open spec fn late_text(self) -> Seq<char> {
        "FAILED: test suite exceeded "@ + decimal(self.config.suite.secs as int) + "s deadline"@
    }

    /// After the clock was read.
    pub open spec fn clock_read(self, expired: bool) -> SuiteStepView {
        if expired {
            SuiteStepView {
                show_output: false,
                line: Some((true, self.late_text())),
                action: SuiteAction::Finish(false),
            }
        } else {
            SuiteStepView { show_output: false, line: None, action: SuiteAction::RunTest }
        }
    }

    /// The current test and how long it took.
    pub open spec fn report(self, verdict: Seq<char>, elapsed: Span) -> Seq<char> {
        verdict + " ["@ + group_label(self.group) + "] "@ + self.tests[self.next] + " "@
            + duration_text(elapsed)
    }

    /// After the current test ended.
    pub open spec fn finished(self, outcome: TestOutcome, elapsed: Span, expired: bool) -> (
        SuiteRunView,
        SuiteStepView,
    ) {
        match outcome {
            TestOutcome::Passed => {
                let done = SuiteRunView { next: self.next + 1, ..self };
                let (after, action) = if done.next < done.tests.len() {
                    (done, SuiteAction::CheckClock)
                } else {
                    done.next_group()
                };
                (
                    after,
                    SuiteStepView {
                        show_output: false,
                        line: Some(
                            (
                                false,
                                self.report("PASS"@, elapsed) + slow_text(
                                    elapsed,
                                    self.config.slow,
                                ),
                            ),
                        ),
                        action,
                    },
                )
            },
            TestOutcome::TimedOut => (
                self,
                SuiteStepView {
                    show_output: true,
                    line: Some(
                        (
                            true,
                            if expired {
                                self.late_text()
                            } else {
                                self.report("TIMEOUT"@, elapsed) + " (deadline "@ + decimal(
                                    self.config.per_test.secs as int,
                                ) + "s)"@
                            },
                        ),
                    ),
                    action: SuiteAction::Finish(false),
                },
            ),
            TestOutcome::Failed(status) => (
                self,
                SuiteStepView {
                    show_output: true,
                    line: Some((true, self.report("FAIL"@, elapsed) + " ("@ + status@ + ")"@)),
                    action: SuiteAction::Finish(false),
                },
            ),
        }
    }
}

fn step(show_output: bool, error: bool, text: String, action: SuiteAction) -> (step: SuiteStep)
    ensures
        step@ == (SuiteStepView { show_output, line: Some((error, text@)), action }),
{
    SuiteStep { show_output, line: Some(OutputLine { error, text }), action }
}

impl SuiteRun {
    /// A run that starts by listing the first group.
    pub fn new(config: Config) -> (run: SuiteRun)
        ensures
            run@ == (SuiteRunView { config, group: 0, tests: Seq::empty(), next: 0 }),
    {
        let run = SuiteRun { config, group: 0, tests: Vec::new(), next: 0 };
        assert(run@.tests =~= Seq::<Seq<char>>::empty());
        run
    }

    /// Turns to the next group, or ends.
    fn turn(&mut self) -> (action: SuiteAction)
        requires
            old(self)@.wf(),
        ensures
            (final(self)@, action) == old(self)@.next_group(),
    {
        if self.group + 1 < GROUP_COUNT {
            self.group = self.group + 1;
            SuiteAction::List
        } else {
            SuiteAction::Finish(true)
        }
    }

    /// Takes the listing of the current group.
    pub fn listed(&mut self, success: bool, output: &str) -> (step: SuiteStep)
        requires
            old(self)@.wf(),
        ensures
            (final(self)@, step@) == old(self)@.listed(success, output@),
            final(self)@.wf(),
            step.action == SuiteAction::CheckClock ==> final(self)@.next
                < final(self)@.tests.len(),
    {
        let label = test_group(self.group).label;
        if !success {
            let mut text = String::from_str("FAILED: could not list [");
            text.append(label);
            text.append("] tests");
            return self::step(true, true, text, SuiteAction::Finish(false));
        }
        self.tests = parse_test_list(output);
        self.next = 0;
        if self.tests.len() == 0 {
            let mut text = String::from_str("[");
            text.append(label);
            text.append("] no tests");
            let action = self.turn();
            self::step(false, false, text, action)
        } else {
            SuiteStep { show_output: false, line: None, action: SuiteAction::CheckClock }
        }
    }

    fn late(&self) -> (text: String)
        ensures
            text@ == self@.late_text(),
    {
        let mut text = String::from_str("FAILED: test suite exceeded ");
        push_decimal(&mut text, self.config.suite.secs);
        text.append("s deadline");
        text
    }

    /// Takes the clock: whether the suite's deadline has passed.
    pub fn clock_read(&self, expired: bool) -> (step: SuiteStep)
        ensures
            step@ == self@.clock_read(expired),
    {
        if expired {
            self::step(false, true, self.late(), SuiteAction::Finish(false))
        } else {
            SuiteStep { show_output: false, line: None, action: SuiteAction::RunTest }
        }
    }

    fn report(&self, verdict: &str, elapsed: Span) -> (text: String)
        requires
            self@.wf(),
            self.next < self.tests@.len(),
            elapsed.wf(),
        ensures
            text@ == self@.report(verdict@, elapsed),
    {
        let mut text = String::from_str(verdict);
        text.append(" [");
        text.append(test_group(self.group).label);
        text.append("] ");
        text.append(self.tests[self.next].as_str());
        text.append(" ");
        text.append(format_duration(elapsed).as_str());
        text
    }

    /// Takes the end of the current test.
    pub fn finished(&mut self, outcome: TestOutcome, elapsed: Span, expired: bool) -> (step:
        SuiteStep)
        requires
            old(self)@.wf(),
            old(self)@.next < old(self)@.tests.len(),
            elapsed.wf(),
        ensures
            (final(self)@, step@) == old(self)@.finished(outcome, elapsed, expired),
            final(self)@.wf(),
            step.action == SuiteAction::CheckClock ==> final(self)@.next
                < final(self)@.tests.len(),
    {
        match outcome {
            TestOutcome::Passed => {
                let mut text = self.report("PASS", elapsed);
                text.append(slow_marker(elapsed, self.config.slow).as_str());
                let count: usize = self.tests.len();
                self.next = self.next + 1;
                let action = if self.next < count {
                    SuiteAction::CheckClock
                } else {
                    self.turn()
                };
                self::step(false, false, text, action)
            },
            TestOutcome::TimedOut => {
                let text = if expired {
                    self.late()
                } else {
                    let mut text = self.report("TIMEOUT", elapsed);
                    text.append(" (deadline ");
                    push_decimal(&mut text, self.config.per_test.secs);
                    text.append("s)");
                    text
                };
                self::step(true, true, text, SuiteAction::Finish(false))
            },
            TestOutcome::Failed(status) => {
                let mut text = self.report("FAIL", elapsed);
                text.append(" (");
                text.append(status.as_str());
                text.append(")");
                self::step(true, true, text, SuiteAction::Finish(false))
            },
        }
    }
}

/// Law: a run ends in success only after the last group, and a test that does not pass ends it
/// in failure.
pub proof fn law_suite_passes_only_if_every_test_did(
    run: SuiteRunView,
    outcome: TestOutcome,
    elapsed: Span,
    expired: bool,
)
    requires
        run.wf(),
    ensures
        run.finished(outcome, elapsed, expired).1.action == SuiteAction::Finish(true) ==> outcome
            is Passed && run.group == GROUP_COUNT - 1 && run.next + 1 >= run.tests.len(),
        !(outcome is Passed) ==> run.finished(outcome, elapsed, expired).1.action
            == SuiteAction::Finish(false),
{
}

/// Law: after a test that passed comes the next one of the same group, the clock being read first,
/// as long as the group has one; behind its last test the next group is listed, and behind the
/// last group the run ends in success. This is so in every group.
pub proof fn law_passed_test_is_followed_by_the_next(
    run: SuiteRunView,
    elapsed: Span,
    expired: bool,
)
    requires
        run.wf(),
        0 <= run.next < run.tests.len(),
    ensures
        ({
            let (after, step) = run.finished(TestOutcome::Passed, elapsed, expired);
            &&& after.config == run.config
            &&& after.tests == run.tests
            &&& after.next == run.next + 1
            &&& run.next + 1 < run.tests.len() <==> step.action == SuiteAction::CheckClock
            &&& run.next + 1 < run.tests.len() ==> after.group == run.group
            &&& step.action == SuiteAction::List <==> run.next + 1 == run.tests.len()
                && run.group < 4
            &&& step.action == SuiteAction::List ==> after.group == run.group + 1
            &&& step.action == SuiteAction::Finish(true) <==> run.next + 1 == run.tests.len()
                && run.group == 4
            &&& !step.show_output
            &&& step.line matches Some((error, _)) && !error
        }),
{
}

/// Law: a listing that succeeded makes the tests that it names the current ones, from the first
/// on, and turns to the next group exactly if it names none; one that failed ends the run.
pub proof fn law_listing_names_the_tests_to_run(
    run: SuiteRunView,
    success: bool,
    output: Seq<char>,
)
    requires
        run.wf(),
    ensures
        ({
            let names = test_names(lines_of(output));
            let (after, step) = run.listed(success, output);
            &&& after.config == run.config
            &&& !success ==> after == run && step.action == SuiteAction::Finish(false)
                && step.show_output
            &&& success ==> after.tests == names && after.next == 0
            &&& success && names.len() > 0 ==> after.group == run.group && step.action
                == SuiteAction::CheckClock && step.line is None
            &&& success && names.len() == 0 && run.group < 4 ==> after.group == run.group + 1
                && step.action == SuiteAction::List
            &&& success && names.len() == 0 && run.group == 4 ==> step.action
                == SuiteAction::Finish(true)
        }),
{
}

/// Law: a test is run after the clock was read exactly if the suite's time is not up; otherwise
/// the run ends in failure.
pub proof fn law_late_suite_runs_no_test(run: SuiteRunView, expired: bool)
    ensures
        run.clock_read(expired).action == (if expired {
            SuiteAction::Finish(false)
        } else {
            SuiteAction::RunTest
        }),
        expired <==> run.clock_read(expired).line is Some,
{
}

/// Law: the names in a listing are found line by line: those of two listings one after the other
/// are those of the first and then those of the second, a line `name: test` gives that name, and
/// any other line gives none.
pub proof fn law_listing_is_read_line_by_line(
    first: Seq<Seq<char>>,
    second: Seq<Seq<char>>,
    name: Seq<char>,
    line: Seq<char>,
)
    ensures
        test_names(first + second) == test_names(first) + test_names(second),
        test_names(seq![name + ": test"@]) == seq![name],
        test_names(seq![line]).len() == 1 ==> line == test_names(seq![line])[0] + ": test"@,
        test_names(seq![line]).len() <= 1,
        test_names(Seq::empty()) == Seq::<Seq<char>>::empty(),
    decreases second.len(),
{
    let ending = ": test"@;
    let full = name + ending;
    assert(full.skip(full.len() - ending.len()) =~= ending);
    assert(full.take(full.len() - ending.len()) =~= name);
    assert(seq![full].drop_last() =~= Seq::<Seq<char>>::empty());
    assert(seq![line].drop_last() =~= Seq::<Seq<char>>::empty());
    reveal_with_fuel(test_names, 2);
    assert(test_names(seq![full]) =~= seq![name]);
    if has_suffix(line, ending) {
        assert(line =~= line.take(line.len() - ending.len()) + ending);
    }
    if second.len() == 0 {
        assert(first + second =~= first);
        assert(test_names(first) + test_names(second) =~= test_names(first));
    } else {
        law_listing_is_read_line_by_line(first, second.drop_last(), name, line);
        assert((first + second).drop_last() =~= first + second.drop_last());
        assert((first + second).last() == second.last());
        assert(test_names(first + second) =~= test_names(first) + test_names(second));
    }
}

/// What can happen in the course of a run.
pub ghost enum SuiteEvent {
    /// The current group was listed.
    Listed { success: bool, output: Seq<char> },
    /// The clock was read.
    Clock { expired: bool },
    /// The current test ended.
    Ended { outcome: TestOutcome, elapsed: Span, expired: bool },
}

/// A run, what it does next, which tests were listed so far and which have passed, each with its
/// group.
pub ghost struct SuiteHistory {
    pub run: SuiteRunView,
    pub action: SuiteAction,
    pub listed: Seq<(int, Seq<char>)>,
    pub passed: Seq<(int, Seq<char>)>,
    /// How many groups were listed.
    pub groups: int,
}

impl SuiteHistory {
    /// A run that starts.
    pub open spec fn starting(config: Config) -> SuiteHistory {
        SuiteHistory {
            run: SuiteRunView { config, group: 0, tests: Seq::empty(), next: 0 },
            action: SuiteAction::List,
            listed: Seq::empty(),
            passed: Seq::empty(),
            groups: 0,
        }
    }

    /// Whether the run waits for `event`.
    pub open spec fn expects(self, event: SuiteEvent) -> bool {
        match event {
            SuiteEvent::Listed { .. } => self.action == SuiteAction::List,
            SuiteEvent::Clock { .. } => self.action == SuiteAction::CheckClock,
            SuiteEvent::Ended { .. } => self.action == SuiteAction::RunTest,
        }
    }

    /// The run after `event`.
    pub open spec fn after(self, event: SuiteEvent) -> SuiteHistory {
        match event {
            SuiteEvent::Listed { success, output } => {
                let (run, step) = self.run.listed(success, output);
                let names = test_names(lines_of(output));
                let group = self.run.group;
                SuiteHistory {
                    run,
                    action: step.action,
                    listed: if success {
                        self.listed + Seq::new(names.len(), |i: int| (group, names[i]))
                    } else {
                        self.listed
                    },
                    groups: self.groups + 1,
                    ..self
                }
            },
            SuiteEvent::Clock { expired } => SuiteHistory {
                action: self.run.clock_read(expired).action,
                ..self
            },
            SuiteEvent::Ended { outcome, elapsed, expired } => {
                let (run, step) = self.run.finished(outcome, elapsed, expired);
                SuiteHistory {
                    run,
                    action: step.action,
                    passed: if outcome is Passed {
                        self.passed.push((self.run.group, self.run.tests[self.run.next]))
                    } else {
                        self.passed
                    },
                    ..self
                }
            },
        }
    }

    /// The run after `events`, one after the other.
    pub open spec fn after_all(self, events: Seq<SuiteEvent>) -> SuiteHistory
        decreases events.len(),
    {
        if events.len() == 0 {
            self
        } else {
            self.after_all(events.drop_last()).after(events.last())
        }
    }

    /// Whether the run waits for each of `events` when it comes.
    pub open spec fn follows(self, events: Seq<SuiteEvent>) -> bool
        decreases events.len(),
    {
        events.len() == 0 || {
            &&& self.follows(events.drop_last())
            &&& self.after_all(events.drop_last()).expects(events.last())
        }
    }

    /// The tests of the current group that are still to be run.
    pub open spec fn left(self) -> Seq<(int, Seq<char>)> {
        let run = self.run;
        Seq::new((run.tests.len() - run.next) as nat, |i: int| (run.group, run.tests[run.next + i]))
    }

    /// What holds of a run that has not ended in failure.
    pub open spec fn complete_so_far(self) -> bool {
        match self.action {
            SuiteAction::List => {
                &&& self.groups == self.run.group
                &&& self.passed == self.listed
            },
            SuiteAction::CheckClock | SuiteAction::RunTest => {
                &&& self.groups == self.run.group + 1
                &&& 0 <= self.run.next < self.run.tests.len()
                &&& self.passed + self.left() == self.listed
            },
            SuiteAction::Finish(true) => {
                &&& self.groups == 5
                &&& self.passed == self.listed
            },
            SuiteAction::Finish(false) => true,
        }
    }
}

/// What holds of every run.
proof fn lemma_suite_history(config: Config, events: Seq<SuiteEvent>)
    requires
        config.slow.wf() && config.per_test.wf() && config.suite.wf(),
        SuiteHistory::starting(config).follows(events),
    ensures
        SuiteHistory::starting(config).after_all(events).run.wf(),
        SuiteHistory::starting(config).after_all(events).complete_so_far(),
    decreases events.len(),
{
    let start = SuiteHistory::starting(config);
    if events.len() > 0 {
        lemma_suite_history(config, events.drop_last());
        let before = start.after_all(events.drop_last());
        let after = before.after(events.last());
        match events.last() {
            SuiteEvent::Listed { success, output } => {
                let names = test_names(lines_of(output));
                let group = before.run.group;
                let found = Seq::new(names.len(), |i: int| (group, names[i]));
                law_listing_names_the_tests_to_run(before.run, success, output);
                if success && names.len() > 0 {
                    assert(after.left() =~= found);
                } else if success {
                    assert(before.listed + found =~= before.listed);
                }
            },
            SuiteEvent::Clock { expired } => {
                law_late_suite_runs_no_test(before.run, expired);
                assert(after.left() == before.left());
            },
            SuiteEvent::Ended { outcome, elapsed, expired } => {
                law_suite_passes_only_if_every_test_did(before.run, outcome, elapsed, expired);
                if outcome is Passed {
                    law_passed_test_is_followed_by_the_next(before.run, elapsed, expired);
                    let first = (before.run.group, before.run.tests[before.run.next]);
                    assert(before.left()[0] == first);
                    if before.run.next + 1 < before.run.tests.len() {
                        assert(before.passed + before.left() =~= after.passed + after.left());
                    } else {
                        assert(before.passed + before.left() =~= after.passed);
                    }
                }
            },
        }
    }
}

/// Law: a run that ends in success has listed all five groups, each once and in order, and every
/// test that was listed was run in its turn and passed, and no other.
pub proof fn law_suite_runs_every_listed_test(config: Config, events: Seq<SuiteEvent>)
    requires
        config.slow.wf() && config.per_test.wf() && config.suite.wf(),
        SuiteHistory::starting(config).follows(events),
        SuiteHistory::starting(config).after_all(events).action == SuiteAction::Finish(true),
    ensures
        SuiteHistory::starting(config).after_all(events).groups == 5,
        SuiteHistory::starting(config).after_all(events).passed == SuiteHistory::starting(
            config,
        ).after_all(events).listed,
{
    lemma_suite_history(config, events);
}

/// Law: the five groups have different labels and different targets, and a test is run in the
/// target in which it was listed.
pub proof fn law_groups_are_told_apart(group: int, other: int)
    requires
        0 <= group < 5,
        0 <= other < 5,
        group != other,
    ensures
        group_label(group) != group_label(other),
        group_target(group) != group_target(other),
{
    reveal_strlit("library");
    reveal_strlit("binary");
    reveal_strlit("lab");
    reveal_strlit("mount-helper");
    reveal_strlit("doc");
    reveal_strlit("--lib");
    reveal_strlit("--bin=block-storage-ublk");
    reveal_strlit("--bin=block-storage-lab");
    reveal_strlit("--bin=block-storage-mount");
    reveal_strlit("--doc");
    assert("--bin=block-storage-ublk"@[20] == 'u');
    assert("--bin=block-storage-lab"@[20] == 'l');
    assert("--bin=block-storage-mount"@[20] == 'm');
    assert("library"@.len() == 7 && "binary"@.len() == 6 && "mount-helper"@.len() == 12);
    assert("lab"@.len() == 3 && "doc"@.len() == 3);
    assert("lab"@[0] == 'l' && "doc"@[0] == 'd');
    assert("--lib"@[2] == 'l' && "--doc"@[2] == 'd');
}

/// Law: a test is marked as slow exactly if it took longer than the limit, by however little.
pub proof fn law_slow_tests_are_marked(elapsed: Span, threshold: Span)
    requires
        elapsed.wf(),
        threshold.wf(),
    ensures
        slow_text(elapsed, threshold).len() > 0 <==> elapsed.secs > threshold.secs || (elapsed.secs
            == threshold.secs && elapsed.nanos > threshold.nanos),
{
    reveal_strlit(" SLOW(>");
}

/// The lines that a recorded run of the suite starts with.
pub open spec fn suite_head(config: Config, directory: Seq<char>) -> Seq<Seq<char>> {
    seq!["working directory: "@ + directory] + (if config.mode == Mode::EngineCrash {
        seq!["environment: BLOCK_STORAGE_CRASH_TEST_MODE=acceptance"@]
    } else {
        Seq::empty()
    }) + seq![
        "deadlines: per-test="@ + decimal(config.per_test.secs as int) + "s suite="@ + decimal(
            config.suite.secs as int,
        ) + "s slow="@ + decimal(config.slow.secs as int) + "s"@,
    ]
}

/// The lines that a recorded run of the suite starts with.
pub fn head_lines(config: Config, directory: &str) -> (head: Vec<String>)
    ensures
        string_views(head@) == suite_head(config, directory@),
{
    let mut head: Vec<String> = Vec::new();
    let mut place = String::from_str("working directory: ");
    place.append(directory);
    head.push(place);
    if config.mode == Mode::EngineCrash {
        head.push(String::from_str("environment: BLOCK_STORAGE_CRASH_TEST_MODE=acceptance"));
    }
    let mut limits = String::from_str("deadlines: per-test=");
    push_decimal(&mut limits, config.per_test.secs);
    limits.append("s suite=");
    push_decimal(&mut limits, config.suite.secs);
    limits.append("s slow=");
    push_decimal(&mut limits, config.slow.secs);
    limits.append("s");
    head.push(limits);
    assert(string_views(head@) =~= suite_head(config, directory@));
    head
}

/// How the end of a command is recorded.
pub open spec fn outcome_words(outcome: Outcome) -> Seq<char> {
    match outcome {
        Outcome::Exit(exit) => exit.text@,
        Outcome::Timeout => "timeout"@,
    }
}

/// How the end of a command is recorded.
pub fn outcome_text(outcome: &Outcome) -> (text: String)
    ensures
        text@ == outcome_words(*outcome),
{
    match outcome {
        Outcome::Exit(exit) => String::from_str(exit.text.as_str()),
        Outcome::Timeout => String::from_str("timeout"),
    }
}

/// Records how long a command took and how it ended.
pub fn timing_line(elapsed: Span, result: &Result<Outcome, LabError>) -> (line: String)
    requires
        elapsed.wf(),
    ensures
        line@ == "timing: "@ + duration_text(elapsed) + " result: "@ + (match *result {
            Ok(outcome) => outcome_words(outcome),
            Err(error) => "error: "@ + error@.1,
        }),
{
    let mut line = String::from_str("timing: ");
    line.append(format_duration(elapsed).as_str());
    line.append(" result: ");
    let ghost head = line@;
    match result {
        Ok(outcome) => {
            line.append(outcome_text(outcome).as_str());
        },
        Err(error) => {
            line.append("error: ");
            line.append(error.message.as_str());
            assert(line@ =~= head + ("error: "@ + error@.1));
        },
    }
    line
}

/// The last line of a recorded run of the suite.
pub fn suite_result_line(result: &Result<bool, LabError>) -> (line: String)
    ensures
        match *result {
            Ok(true) => line@ == "result: PASS"@,
            Ok(false) => line@ == "result: FAIL"@,
            Err(error) => line@ == "result: ERROR "@ + error@.1,
        },
{
    match result {
        Ok(passed) => {
            if *passed {
                String::from_str("result: PASS")
            } else {
                String::from_str("result: FAIL")
            }
        },
        Err(error) => {
            let mut line = String::from_str("result: ERROR ");
            line.append(error.message.as_str());
            line
        },
    }
}

/// Law: a length of time is written in whole seconds and in milliseconds of exactly three digits,
/// cut and not rounded.
pub proof fn law_durations_are_written_in_milliseconds(duration: Span)
    requires
        duration.wf(),
    ensures
        ({
            let text = duration_text(duration);
            let whole = decimal(duration.secs as int);
            let digits = text.subrange(whole.len() as int + 1, text.len() - 1);
            &&& text.take(whole.len() as int) == whole
            &&& text[whole.len() as int] == '.'
            &&& text.last() == 's'
            &&& digits.len() == 3
            &&& base_value(digits, 10) == duration.nanos as int / 1_000_000
        }),
{
    reveal_strlit(".");
    reveal_strlit("s");
    assert(power(10, 3) == 1000) by {
        reveal_with_fuel(power, 4);
    }
    let millis = duration.nanos as int / 1_000_000;
    law_base_digits_denote_their_number(millis, 10, 3);
    let text = duration_text(duration);
    let whole = decimal(duration.secs as int);
    assert(text.take(whole.len() as int) =~= whole);
    assert(text.subrange(whole.len() as int + 1, text.len() - 1) =~= base_digits(millis, 10, 3));
}

/// Law: the crash tests are run in their own mode, and nothing else is.
pub proof fn law_crash_tests_have_their_own_mode(mode: Mode)
    ensures
        run_env(mode).len() > 0 <==> mode is EngineCrash,
        mode is EngineCrash ==> run_env(mode) == seq![
            ("BLOCK_STORAGE_CRASH_TEST_MODE"@, "acceptance"@),
        ],
{
}

} // verus!
