//! The steps of a run of the ublk lab: every scenario, several times, each on fresh resources.

use crate::lab::error::{demand, LabError};
#[allow(unused_imports)]
use crate::lab::error::demanded;
use crate::lab::scenario::{Scenario, REPETITIONS, SCENARIOS};
#[allow(unused_imports)]
use crate::lab::scenario::{law_after_a_restart_the_written_blocks_are_read, Transition};
use crate::text::push_decimal;
#[allow(unused_imports)]
use crate::text::decimal;
use vstd::prelude::*;

verus! {

/// One step of a run.
#[derive(Clone, Copy, Debug, PartialEq, Eq, Structural)]
pub enum LabStep {
    /// Record which scenario starts.
    Announce,
    /// Make a directory and format a backing in it.
    Setup,
    /// Start a daemon that stops at the failpoint, if asked to, and wait for its device.
    Start { failpoint: bool },
    /// Run a job of the scenario, which must succeed.
    Fio { job: usize },
    /// Run a job of the scenario, which must fill the device.
    Exhaust { job: usize },
    /// Ask the daemon to end, and wait for the device to disappear.
    Stop,
    /// Ask the daemon to end.
    Terminate,
    /// Wait for the daemon to reach the failpoint.
    AwaitFailpoint,
    /// Kill the daemon.
    Kill,
    /// Delete the device that a killed daemon left.
    RemoveAfterKill,
    /// Show that a second daemon is refused the backing.
    ProveLock,
    /// Validate the backing.
    ValidateBacking,
    /// Remove the directory.
    RemoveDirectory,
    /// Record that the scenario passed.
    Pass,
}

/// What a run holds at a moment.
#[derive(Clone, Copy, Debug, PartialEq, Eq, Structural)]
pub struct Held {
    pub directory: bool,
    pub backing: bool,
    pub child: bool,
    pub device: bool,
}

/// The steps between setting up and tearing down.
pub open spec fn scenario_steps(scenario: Scenario) -> Seq<LabStep> {
    match scenario {
        Scenario::Sequential | Scenario::Random => seq![
            LabStep::Start { failpoint: false },
            LabStep::Fio { job: 0 },
        ],
        Scenario::Overwrite => seq![
            LabStep::Start { failpoint: false },
            LabStep::Fio { job: 0 },
            LabStep::Fio { job: 1 },
            LabStep::Fio { job: 2 },
            LabStep::Fio { job: 3 },
            LabStep::Fio { job: 4 },
            LabStep::Fio { job: 5 },
            LabStep::Fio { job: 6 },
            LabStep::Fio { job: 7 },
        ],
        Scenario::GracefulRestart => seq![
            LabStep::Start { failpoint: false },
            LabStep::Fio { job: 0 },
            LabStep::Stop,
            LabStep::Start { failpoint: false },
            LabStep::Fio { job: 1 },
        ],
        Scenario::SigkillRestart => seq![
            LabStep::Start { failpoint: false },
            LabStep::Fio { job: 0 },
            LabStep::Kill,
            LabStep::RemoveAfterKill,
            LabStep::Start { failpoint: false },
            LabStep::Fio { job: 1 },
        ],
        Scenario::DescriptorCloseFailpoint => seq![
            LabStep::Start { failpoint: true },
            LabStep::Fio { job: 0 },
            LabStep::Terminate,
            LabStep::AwaitFailpoint,
            LabStep::Kill,
            LabStep::RemoveAfterKill,
            LabStep::Start { failpoint: false },
            LabStep::Fio { job: 1 },
        ],
        Scenario::Exhaustion => seq![
            LabStep::Start { failpoint: false },
            LabStep::Exhaust { job: 0 },
            LabStep::Stop,
            LabStep::Start { failpoint: false },
            LabStep::Fio { job: 1 },
        ],
    }
}

/// All steps of one repetition of a scenario; the first of a run also shows that the backing is
/// locked.
pub open spec fn repetition_steps(scenario: Scenario, prove_lock: bool) -> Seq<LabStep> {
    seq![LabStep::Announce, LabStep::Setup] + scenario_steps(scenario) + (if prove_lock {
        seq![LabStep::ProveLock]
    } else {
        Seq::empty()
    }) + seq![LabStep::Stop, LabStep::ValidateBacking, LabStep::RemoveDirectory, LabStep::Pass]
}

/// The steps between setting up and tearing down, appended to `steps`.
fn push_scenario(steps: &mut Vec<LabStep>, scenario: Scenario)
    ensures
        final(steps)@ == old(steps)@ + scenario_steps(scenario),
{
    let ghost before = steps@;
    steps.push(LabStep::Start { failpoint: scenario == Scenario::DescriptorCloseFailpoint });
    match scenario {
        Scenario::Sequential | Scenario::Random => {
            steps.push(LabStep::Fio { job: 0 });
        },
        Scenario::Overwrite => {
            steps.push(LabStep::Fio { job: 0 });
            steps.push(LabStep::Fio { job: 1 });
            steps.push(LabStep::Fio { job: 2 });
            steps.push(LabStep::Fio { job: 3 });
            steps.push(LabStep::Fio { job: 4 });
            steps.push(LabStep::Fio { job: 5 });
            steps.push(LabStep::Fio { job: 6 });
            steps.push(LabStep::Fio { job: 7 });
        },
        Scenario::GracefulRestart => {
            steps.push(LabStep::Fio { job: 0 });
            steps.push(LabStep::Stop);
            steps.push(LabStep::Start { failpoint: false });
            steps.push(LabStep::Fio { job: 1 });
        },
        Scenario::SigkillRestart => {
            steps.push(LabStep::Fio { job: 0 });
            steps.push(LabStep::Kill);
            steps.push(LabStep::RemoveAfterKill);
            steps.push(LabStep::Start { failpoint: false });
            steps.push(LabStep::Fio { job: 1 });
        },
        Scenario::DescriptorCloseFailpoint => {
            steps.push(LabStep::Fio { job: 0 });
            steps.push(LabStep::Terminate);
            steps.push(LabStep::AwaitFailpoint);
            steps.push(LabStep::Kill);
            steps.push(LabStep::RemoveAfterKill);
            steps.push(LabStep::Start { failpoint: false });
            steps.push(LabStep::Fio { job: 1 });
        },
        Scenario::Exhaustion => {
            steps.push(LabStep::Exhaust { job: 0 });
            steps.push(LabStep::Stop);
            steps.push(LabStep::Start { failpoint: false });
            steps.push(LabStep::Fio { job: 1 });
        },
    }
    assert(steps@ =~= before + scenario_steps(scenario));
}

/// All steps of one repetition of a scenario.
pub fn execute(scenario: Scenario, prove_lock: bool) -> (steps: Vec<LabStep>)
    ensures
        steps@ == repetition_steps(scenario, prove_lock),
{
    let mut steps: Vec<LabStep> = Vec::new();
    steps.push(LabStep::Announce);
    steps.push(LabStep::Setup);
    push_scenario(&mut steps, scenario);
    if prove_lock {
        steps.push(LabStep::ProveLock);
    }
    steps.push(LabStep::Stop);
    steps.push(LabStep::ValidateBacking);
    steps.push(LabStep::RemoveDirectory);
    steps.push(LabStep::Pass);
    assert(steps@ =~= repetition_steps(scenario, prove_lock));
    steps
}

impl Held {
    /// Nothing is held.
    pub open spec fn nothing() -> Held {
        Held { directory: false, backing: false, child: false, device: false }
    }

    /// Whether a step has what it works on, and would not lose track of anything.
    pub open spec fn permits(self, step: LabStep) -> bool {
        match step {
            LabStep::Announce | LabStep::Pass => true,
            LabStep::Setup => !self.directory && !self.backing && !self.child,
            LabStep::Start { .. } => {
                &&& self.directory && self.backing
                &&& !self.child && !self.device
            },
            LabStep::Fio { .. } | LabStep::Exhaust { .. } | LabStep::ProveLock => {
                self.directory && self.backing && self.child && self.device
            },
            LabStep::Stop => self.child && self.device,
            LabStep::Terminate | LabStep::AwaitFailpoint | LabStep::Kill => self.child,
            LabStep::RemoveAfterKill => self.device && !self.child,
            LabStep::ValidateBacking => self.directory && self.backing,
            LabStep::RemoveDirectory => self.directory && !self.child && !self.device,
        }
    }

    /// What is held after a step that succeeded.
    pub open spec fn after(self, step: LabStep) -> Held {
        match step {
            LabStep::Setup => Held { directory: true, backing: true, ..self },
            LabStep::Start { .. } => Held { child: true, device: true, ..self },
            LabStep::Stop => Held { child: false, device: false, ..self },
            LabStep::Kill => Held { child: false, ..self },
            LabStep::RemoveAfterKill => Held { device: false, ..self },
            LabStep::RemoveDirectory => Held { directory: false, backing: false, ..self },
            _ => self,
        }
    }

    /// Demands that nothing of an earlier repetition is left.
    pub fn require_fresh(self) -> (result: Result<(), LabError>)
        ensures
            demanded(
                self.permits(LabStep::Setup),
                "previous scenario resources remain"@,
                result,
            ),
    {
        demand(
            !self.directory && !self.backing && !self.child,
            "previous scenario resources remain",
        )
    }

    /// Demands that no daemon is running.
    pub fn require_no_daemon(self) -> (result: Result<(), LabError>)
        ensures
            demanded(!self.child && !self.device, "daemon is already active"@, result),
    {
        demand(!self.child && !self.device, "daemon is already active")
    }

    /// Demands that a daemon is running.
    pub fn require_daemon(self) -> (result: Result<(), LabError>)
        ensures
            demanded(self.child, "daemon child is missing"@, result),
    {
        demand(self.child, "daemon child is missing")
    }
}

/// What is held after the steps from `at` on, if each of them is permitted in its turn.
pub open spec fn held_after(steps: Seq<LabStep>, at: int, held: Held) -> Option<Held>
    decreases steps.len() - at,
{
    if at < 0 || at >= steps.len() {
        Some(held)
    } else if !held.permits(steps[at]) {
        None
    } else {
        held_after(steps, at + 1, held.after(steps[at]))
    }
}

/// Law: every repetition finds each of its steps permitted when it starts with nothing, and ends
/// with nothing held.
pub proof fn law_repetitions_leave_nothing_behind(scenario: Scenario, prove_lock: bool)
    ensures
        held_after(repetition_steps(scenario, prove_lock), 0, Held::nothing()) == Some(
            Held::nothing(),
        ),
{
    reveal_with_fuel(held_after, 18);
    let steps = repetition_steps(scenario, prove_lock);
    match scenario {
        Scenario::Overwrite => {
            assert(steps.len() == if prove_lock {
                16int
            } else {
                15int
            });
        },
        _ => {},
    }
}

/// Law: whatever happens to a device in a scenario ends with the device up and its contents
/// read back, so that the last step before tearing down is a job that must succeed.
pub proof fn law_scenarios_end_by_reading_back(scenario: Scenario)
    ensures
        scenario_steps(scenario).len() > 0,
        scenario_steps(scenario).last() is Fio,
        scenario_steps(scenario)[0] is Start,
{
}

/// Which job a step runs, if it runs one.
pub open spec fn job_of(step: LabStep) -> Option<int> {
    match step {
        LabStep::Fio { job } => Some(job as int),
        LabStep::Exhaust { job } => Some(job as int),
        _ => None,
    }
}

/// How many of the first `count` steps run a job.
pub open spec fn jobs_within(steps: Seq<LabStep>, count: int) -> int
    decreases count,
{
    if count <= 0 {
        0
    } else {
        jobs_within(steps, count - 1) + (if job_of(steps[count - 1]) is Some {
            1int
        } else {
            0
        })
    }
}

/// Law: a scenario runs all of its jobs, each once and in order, and demands success of each but
/// the one that has to fill the device.
pub proof fn law_every_job_is_run_once_in_order(scenario: Scenario, index: int)
    requires
        0 <= index < scenario_steps(scenario).len(),
    ensures
        ({
            let steps = scenario_steps(scenario);
            &&& jobs_within(steps, steps.len() as int) == scenario.jobs().len()
            &&& job_of(steps[index]) matches Some(job) ==> job == jobs_within(steps, index)
            &&& steps[index] is Exhaust <==> scenario is Exhaustion && job_of(steps[index]) == Some(
                0int,
            )
        }),
{
    reveal_with_fuel(jobs_within, 10);
}

/// Law: a job that runs after the daemon was stopped or killed only reads, and it reads what an
/// earlier job wrote before that: the same name, pattern and order, and exactly the blocks that the
/// earlier one made durable.
pub proof fn law_jobs_after_a_restart_only_read(
    scenario: Scenario,
    target: Seq<char>,
    stop: int,
    index: int,
)
    requires
        0 <= stop < index < scenario_steps(scenario).len(),
        scenario_steps(scenario)[stop] is Stop || scenario_steps(scenario)[stop] is Kill
            || scenario_steps(scenario)[stop] is Terminate,
        job_of(scenario_steps(scenario)[index]) is Some,
    ensures
        ({
            let jobs = scenario.jobs();
            let reader = jobs[job_of(scenario_steps(scenario)[index])->0];
            &&& scenario_steps(scenario)[index] is Fio
            &&& reader.command(target).args.contains("--verify_only=1"@)
            &&& exists|writer: int|
                0 <= writer < stop && {
                    let job = job_of(#[trigger] scenario_steps(scenario)[writer]);
                    &&& job is Some
                    &&& !jobs[job->0].command(target).args.contains("--verify_only=1"@)
                    &&& jobs[job->0].name == reader.name
                    &&& jobs[job->0].pattern == reader.pattern
                    &&& jobs[job->0].rw == reader.rw
                    &&& jobs[job->0].options.fsync == Some(reader.blocks)
                }
        }),
{
    let steps = scenario_steps(scenario);
    assert(scenario.course().contains(Transition::Restart)) by {
        if scenario is GracefulRestart || scenario is Exhaustion {
            assert(scenario.course()[3] == Transition::Restart);
        } else if scenario is SigkillRestart {
            assert(scenario.course()[4] == Transition::Restart);
        } else {
            assert(scenario.course()[6] == Transition::Restart);
        }
    }
    law_after_a_restart_the_written_blocks_are_read(scenario, target);
    assert(job_of(steps[1]) == Some(0int));
    assert(job_of(steps[index]) == Some(1int));
}

/// Law: the steps of a scenario are its course: a daemon is started first, with the failpoint
/// exactly in the scenario that fails while closing, it is stopped, killed or awaited where the
/// course says so, the device of a killed daemon is removed before the next start, and no other
/// start has the failpoint.
pub proof fn law_steps_follow_the_course(scenario: Scenario, index: int)
    requires
        0 <= index < scenario_steps(scenario).len(),
    ensures
        ({
            let steps = scenario_steps(scenario);
            let course = scenario.course();
            &&& steps[0] == LabStep::Start { failpoint: scenario is DescriptorCloseFailpoint }
            &&& index > 0 ==> steps[index] != LabStep::Start { failpoint: true }
            &&& course.len() > 2 ==> {
                &&& steps.len() == course.len()
                &&& course[index] is GracefulStop ==> steps[index] == (if scenario
                    is DescriptorCloseFailpoint {
                    LabStep::Terminate
                } else {
                    LabStep::Stop
                })
                &&& course[index] is Sigkill ==> steps[index] is Kill
                &&& course[index] is WaitForFailpoint ==> steps[index] is AwaitFailpoint
                &&& course[index] is RemoveOldDevice ==> steps[index] is RemoveAfterKill
                &&& course[index] is Restart ==> steps[index] is Start
                &&& course[index] is Workload ==> job_of(steps[index]) == Some(0int)
                &&& course[index] is Verify ==> steps[index] == LabStep::Fio { job: 1 }
            }
            &&& course.len() == 2 ==> (index > 0 ==> steps[index] is Fio)
        }),
{
}

/// Law: a repetition announces its scenario and sets up first, then goes through the steps of the
/// scenario, shows the lock where it is to be shown, and at last stops the daemon, validates the
/// backing, removes the directory and only then records that the scenario passed.
pub proof fn law_repetitions_are_framed(scenario: Scenario, prove_lock: bool, index: int)
    requires
        0 <= index < repetition_steps(scenario, prove_lock).len(),
    ensures
        ({
            let steps = repetition_steps(scenario, prove_lock);
            let inner = scenario_steps(scenario);
            let end = steps.len() - 1;
            &&& steps[index] is Announce <==> index == 0
            &&& steps[index] is Setup <==> index == 1
            &&& 2 <= index < 2 + inner.len() ==> steps[index] == inner[index - 2]
            &&& steps[index] is ProveLock <==> prove_lock && index == 2 + inner.len()
            &&& steps[index] is ValidateBacking <==> index == end - 2
            &&& steps[index] is RemoveDirectory <==> index == end - 1
            &&& steps[index] is Pass <==> index == end
            &&& steps[end - 3] is Stop
            &&& steps.len() == inner.len() + (if prove_lock {
                7int
            } else {
                6
            })
        }),
{
    let steps = repetition_steps(scenario, prove_lock);
    let inner = scenario_steps(scenario);
    if 2 <= index < 2 + inner.len() {
        assert(steps[index] == inner[index - 2]);
        assert(!(inner[index - 2] is Announce) && !(inner[index - 2] is Setup) && !(inner[index - 2]
            is ProveLock) && !(inner[index - 2] is ValidateBacking) && !(inner[index - 2]
            is RemoveDirectory) && !(inner[index - 2] is Pass));
    }
}

/// A run of all scenarios.
#[derive(Debug)]
pub struct Campaign {
    /// Which of the scenarios is current.
    pub scenario: usize,
    /// Which repetition is current, counted from one.
    pub repetition: u8,
    pub steps: Vec<LabStep>,
    /// The step that is waited for.
    pub next: usize,
    pub lock_proven: bool,
}

/// What follows a step.
#[derive(Debug)]
pub enum CampaignStep {
    Perform(LabStep),
    /// Everything passed.
    Done,
    Failed(LabError),
}

/// The meaning of a run.
#[verifier::ext_equal]
pub ghost struct CampaignView {
    pub scenario: int,
    pub repetition: int,
    pub steps: Seq<LabStep>,
    pub next: int,
    pub lock_proven: bool,
}

impl View for Campaign {
    type V = CampaignView;

    open spec fn view(&self) -> CampaignView {
        CampaignView {
            scenario: self.scenario as int,
            repetition: self.repetition as int,
            steps: self.steps@,
            next: self.next as int,
            lock_proven: self.lock_proven,
        }
    }
}

impl CampaignView {
    /// The start of a repetition.
    pub open spec fn starting(scenario: int, repetition: int, lock_proven: bool) -> CampaignView {
        CampaignView {
            scenario,
            repetition,
            steps: repetition_steps(SCENARIOS[scenario], !lock_proven),
            next: 0,
            lock_proven,
        }
    }

    /// A scenario, a repetition and a step are current.
    pub open spec fn wf(self) -> bool {
        &&& 0 <= self.scenario < 7
        &&& 1 <= self.repetition <= REPETITIONS
        &&& 0 <= self.next < self.steps.len()
        &&& exists|prove: bool| self.steps == #[trigger] repetition_steps(
            SCENARIOS[self.scenario],
            prove,
        ) && (!prove ==> self.lock_proven) && (prove && self.lock_proven ==> self.next
            > repetition_steps(SCENARIOS[self.scenario], prove).len() - 5)
            && (prove && !self.lock_proven ==> self.next
            <= repetition_steps(SCENARIOS[self.scenario], prove).len() - 5)
    }

    /// The run after a step that succeeded; none where that was the last one.
    pub open spec fn next(self) -> Option<CampaignView> {
        let proven = self.lock_proven || self.steps[self.next] == LabStep::ProveLock;
        if self.next + 1 < self.steps.len() {
            Some(CampaignView { next: self.next + 1, lock_proven: proven, ..self })
        } else if self.repetition < REPETITIONS {
            Some(CampaignView::starting(self.scenario, self.repetition + 1, proven))
        } else if self.scenario + 1 < 7 {
            Some(CampaignView::starting(self.scenario + 1, 1, proven))
        } else {
            None
        }
    }
}

proof fn lemma_starting_is_wf(scenario: int, repetition: int, lock_proven: bool)
    requires
        0 <= scenario < 7,
        1 <= repetition <= REPETITIONS,
    ensures
        CampaignView::starting(scenario, repetition, lock_proven).wf(),
{
    let view = CampaignView::starting(scenario, repetition, lock_proven);
    let prove = !lock_proven;
    assert(scenario_steps(SCENARIOS[scenario]).len() >= 1);
    assert(repetition_steps(SCENARIOS[view.scenario], prove).len() >= 5);
    assert(view.steps == repetition_steps(SCENARIOS[view.scenario], prove));
}

proof fn lemma_step_keeps_wf(view: CampaignView)
    requires
        view.wf(),
    ensures
        view.next() matches Some(after) ==> after.wf(),
        view.next() is None ==> view.lock_proven,
{
    let prove = choose|prove: bool|
        view.steps == #[trigger] repetition_steps(SCENARIOS[view.scenario], prove) && (!prove
            ==> view.lock_proven) && (prove && view.lock_proven ==> view.next > repetition_steps(
            SCENARIOS[view.scenario],
            prove,
        ).len() - 5) && (prove && !view.lock_proven ==> view.next <= repetition_steps(
            SCENARIOS[view.scenario],
            prove,
        ).len() - 5);
    let steps = repetition_steps(SCENARIOS[view.scenario], prove);
    let inner = scenario_steps(SCENARIOS[view.scenario]);
    assert(inner.len() >= 1);
    assert(prove ==> steps[steps.len() - 5] == LabStep::ProveLock);
    assert forall|i: int| 0 <= i < steps.len() && steps[i] == LabStep::ProveLock implies prove && i
        == steps.len() - 5 by {
        assert forall|j: int| 0 <= j < inner.len() implies inner[j] != LabStep::ProveLock by {}
        if 2 <= i < 2 + inner.len() {
            assert(steps[i] == inner[i - 2]);
        }
    }
    match view.next() {
        Some(after) => {
            if view.next + 1 < view.steps.len() {
                assert(after.steps == repetition_steps(SCENARIOS[after.scenario], prove));
            } else if view.repetition < REPETITIONS {
                lemma_starting_is_wf(view.scenario, view.repetition + 1, after.lock_proven);
            } else {
                lemma_starting_is_wf(view.scenario + 1, 1, after.lock_proven);
            }
        },
        None => {},
    }
}

impl Campaign {
    /// A run that starts with the first repetition of the first scenario.
    pub fn new() -> (campaign: Campaign)
        ensures
            campaign@ == CampaignView::starting(0, 1, false),
            campaign@.wf(),
    {
        let campaign = Campaign {
            scenario: 0,
            repetition: 1,
            steps: execute(SCENARIOS[0], true),
            next: 0,
            lock_proven: false,
        };
        proof {
            lemma_starting_is_wf(0, 1, false);
        }
        campaign
    }

    /// The current scenario.
    pub fn current(&self) -> (scenario: Scenario)
        requires
            self@.wf(),
        ensures
            scenario == SCENARIOS[self@.scenario],
    {
        SCENARIOS[self.scenario]
    }

    /// The step that is waited for.
    pub fn step(&self) -> (step: LabStep)
        requires
            self@.wf(),
        ensures
            step == self@.steps[self@.next],
    {
        self.steps[self.next]
    }

    /// Takes what came of the step that is waited for.
    pub fn advance(&mut self, result: Result<(), LabError>) -> (step: CampaignStep)
        requires
            old(self)@.wf(),
        ensures
            final(self)@.wf(),
            match result {
                Err(error) => {
                    &&& final(self)@ == old(self)@
                    &&& step matches CampaignStep::Failed(found)
                    &&& found@ == error@
                },
                Ok(()) => match old(self)@.next() {
                    Some(after) => {
                        &&& final(self)@ == after
                        &&& step == CampaignStep::Perform(after.steps[after.next])
                    },
                    None => {
                        &&& step is Done
                        &&& final(self)@ == (CampaignView {
                            lock_proven: true,
                            ..old(self)@
                        })
                    },
                },
            },
    {
        match result {
            Ok(()) => {},
            Err(error) => {
                return CampaignStep::Failed(error);
            },
        }
        proof {
            lemma_step_keeps_wf(self@);
        }
        let count: usize = self.steps.len();
        if self.steps[self.next] == LabStep::ProveLock {
            self.lock_proven = true;
        }
        if self.next + 1 < count {
            self.next = self.next + 1;
        } else if self.repetition < REPETITIONS {
            self.repetition = self.repetition + 1;
            self.steps = execute(SCENARIOS[self.scenario], !self.lock_proven);
            self.next = 0;
        } else if self.scenario + 1 < 7 {
            self.scenario = self.scenario + 1;
            self.repetition = 1;
            self.steps = execute(SCENARIOS[self.scenario], !self.lock_proven);
            self.next = 0;
        } else {
            return CampaignStep::Done;
        }
        CampaignStep::Perform(self.steps[self.next])
    }
}

/// Law: a run is over only after the last repetition of the last scenario, and only if it has
/// shown that a second daemon is refused the backing.
pub proof fn law_campaign_ends_complete(view: CampaignView)
    requires
        view.wf(),
        view.next() is None,
    ensures
        view.scenario == 6,
        view.repetition == REPETITIONS,
        view.next == view.steps.len() - 1,
        view.lock_proven,
{
    lemma_step_keeps_wf(view);
}

/// Law: a run goes through the steps of a repetition one by one, through the three repetitions of
/// a scenario and through the seven scenarios, leaving out none: after a step that is not the last
/// comes the next one of the same repetition, and after the last one the first step of the next
/// repetition, counted through from the first scenario to the last.
pub proof fn law_campaign_leaves_out_nothing(view: CampaignView)
    requires
        view.wf(),
    ensures
        ({
            let round = 3 * view.scenario + view.repetition;
            &&& view.next() is None <==> round == 21 && view.next + 1 == view.steps.len()
            &&& view.next() matches Some(after) ==> {
                &&& view.next + 1 < view.steps.len() ==> {
                    &&& after.steps == view.steps
                    &&& after.next == view.next + 1
                    &&& after.scenario == view.scenario
                    &&& after.repetition == view.repetition
                }
                &&& view.next + 1 == view.steps.len() ==> {
                    &&& after.next == 0
                    &&& 3 * after.scenario + after.repetition == round + 1
                    &&& 1 <= after.repetition <= 3
                    &&& exists|prove: bool|
                        after.steps == #[trigger] repetition_steps(SCENARIOS[after.scenario], prove)
                }
            }
        }),
{
    if let Some(after) = view.next() {
        if view.next + 1 == view.steps.len() {
            assert(after.steps == repetition_steps(SCENARIOS[after.scenario], !after.lock_proven));
        }
    }
}

/// Law: the scenarios of a run are all that there are, each once.
pub proof fn law_all_scenarios_are_run(scenario: Scenario, index: int, other: int)
    ensures
        exists|i: int| 0 <= i < 7 && #[trigger] SCENARIOS[i] == scenario,
        0 <= index < other < 7 ==> SCENARIOS[index] != SCENARIOS[other],
{
    assert(SCENARIOS[0] == Scenario::Sequential);
    assert(SCENARIOS[1] == Scenario::Random);
    assert(SCENARIOS[2] == Scenario::Overwrite);
    assert(SCENARIOS[3] == Scenario::GracefulRestart);
    assert(SCENARIOS[4] == Scenario::SigkillRestart);
    assert(SCENARIOS[5] == Scenario::DescriptorCloseFailpoint);
    assert(SCENARIOS[6] == Scenario::Exhaustion);
}

/// How much of a run is left: scenarios, repetitions, steps.
pub open spec fn campaign_left(view: CampaignView) -> (int, int, int) {
    (7 - view.scenario, REPETITIONS - view.repetition, view.steps.len() - view.next)
}

/// Law: every step brings a run nearer to its end.
pub proof fn law_campaign_makes_progress(view: CampaignView)
    requires
        view.wf(),
    ensures
        view.next() matches Some(after) ==> {
            let left = campaign_left(view);
            let then_left = campaign_left(after);
            ||| then_left.0 < left.0
            ||| then_left.0 == left.0 && then_left.1 < left.1
            ||| then_left.0 == left.0 && then_left.1 == left.1 && then_left.2 < left.2
        },
{
}

/// What is recorded when a repetition starts.
pub fn announcement(scenario: Scenario, repetition: u8) -> (line: String)
    ensures
        line@ == "=== scenario="@ + scenario.text() + " repetition="@ + decimal(repetition as int)
            + "/3 ==="@,
{
    let mut line = String::from_str("=== scenario=");
    line.append(scenario.name());
    line.append(" repetition=");
    push_decimal(&mut line, repetition as u64);
    line.append("/3 ===");
    line
}

/// What is recorded when a repetition passed.
pub fn pass_line(scenario: Scenario, repetition: u8) -> (line: String)
    ensures
        line@ == "PASS scenario="@ + scenario.text() + " repetition="@ + decimal(
            repetition as int,
        ),
{
    let mut line = String::from_str("PASS scenario=");
    line.append(scenario.name());
    line.append(" repetition=");
    push_decimal(&mut line, repetition as u64);
    line
}

} // verus!
