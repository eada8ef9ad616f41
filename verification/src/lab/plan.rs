//! Working off a list of steps, each of which must succeed before the next one is taken.

use crate::lab::error::LabError;
use vstd::prelude::*;

verus! {

/// A list of steps and how far it has been worked off.
#[derive(Debug)]
pub struct Plan<A> {
    pub steps: Vec<A>,
    /// The step that is waited for.
    pub next: usize,
}

/// What follows a step.
#[derive(Debug)]
pub enum PlanStep<A> {
    Perform(A),
    Done,
    Failed(LabError),
}

impl<A: Copy> Plan<A> {
    /// A step is waited for.
    pub open spec fn wf(self) -> bool {
        self.next < self.steps@.len()
    }

    /// A list of which nothing has been done yet.
    pub fn new(steps: Vec<A>) -> (plan: Plan<A>)
        ensures
            plan.steps == steps,
            plan.next == 0,
    {
        Plan { steps, next: 0 }
    }

    /// The step that is waited for, if there is one.
    pub fn step(&self) -> (step: Option<A>)
        ensures
            step == if self.wf() {
                Some(self.steps@[self.next as int])
            } else {
                None
            },
    {
        if self.next < self.steps.len() {
            Some(self.steps[self.next])
        } else {
            None
        }
    }

    /// Takes what came of the step that is waited for: the first failure ends the list.
    pub fn advance(&mut self, result: Result<(), LabError>) -> (step: PlanStep<A>)
        requires
            old(self).wf(),
        ensures
            final(self).steps == old(self).steps,
            match result {
                Err(error) => {
                    &&& final(self).next == old(self).next
                    &&& step matches PlanStep::Failed(found)
                    &&& found@ == error@
                },
                Ok(()) => {
                    &&& final(self).next == old(self).next + 1
                    &&& match step {
                        PlanStep::Perform(found) => {
                            &&& final(self).wf()
                            &&& found == old(self).steps@[old(self).next + 1]
                        },
                        PlanStep::Done => old(self).next + 1 == old(self).steps@.len(),
                        PlanStep::Failed(_) => false,
                    }
                },
            },
    {
        match result {
            Err(error) => PlanStep::Failed(error),
            Ok(()) => {
                let count: usize = self.steps.len();
                self.next = self.next + 1;
                if self.next < count {
                    PlanStep::Perform(self.steps[self.next])
                } else {
                    PlanStep::Done
                }
            },
        }
    }
}

/// Law: a list is worked off from the first step to the last, leaving out none: it begins with the
/// first, goes on behind each step that succeeded with the one behind it, is done exactly behind the
/// last, and ends at the first that failed.
pub proof fn law_no_step_is_left_out<A: Copy>(
    steps: Vec<A>,
    plan: Plan<A>,
    result: Result<(), LabError>,
    after: PlanStep<A>,
)
    requires
        call_ensures(Plan::<A>::new, (steps,), plan),
    ensures
        plan.steps == steps,
        plan.next == 0,
        forall|plan: &mut Plan<A>|
            (#[trigger] call_ensures(Plan::<A>::advance, (plan, result), after) && plan.next
                < plan.steps@.len()) ==> {
                &&& final(plan).steps == plan.steps
                &&& result is Ok ==> final(plan).next == plan.next + 1
                &&& after is Done <==> result is Ok && plan.next + 1 == plan.steps@.len()
                &&& after is Failed <==> result is Err
                &&& after matches PlanStep::Perform(step) ==> step == plan.steps@[plan.next + 1]
            },
{
}

} // verus!
