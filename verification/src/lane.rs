//! Lanes: the retry policy of one probing loop and the scheduling of many.

use vstd::prelude::*;
use crate::commitment::{bytes_equal, CommitmentPair};
use crate::lifecycle::{Action, AttemptError, AttemptOutcome, Controller, Resolution, RoutingPin};

verus! {

/// When a lane stops making attempts.
#[derive(Clone, Copy, Debug, PartialEq, Eq, Structural)]
pub enum Termination {
    /// Retry until an attempt ends with every inbound unit endorsed.
    UntilEndorsed,
    /// Make this many attempts, whatever their outcomes.
    AttemptBudget(usize),
}

/// What a lane does after an attempt.
#[derive(Clone, Copy, Debug, PartialEq, Eq, Structural)]
pub enum LaneDecision {
    /// The termination condition is met.
    Finished,
    /// Make the next attempt at once.
    NextAttempt,
    /// The transport failed: wait, then make the next attempt.
    RetryAfterBackoff,
}

/// One probing loop against one target peer.
#[derive(Debug, PartialEq, Eq)]
pub struct Lane {
    pub target_peer: String,
    pub termination: Termination,
    /// The outcome of every attempt so far, oldest first.
    pub outcomes: Vec<AttemptOutcome>,
}

/// The attempt resolved its lock and every inbound unit was endorsed.
pub open spec fn endorsed(outcome: AttemptOutcome) -> bool {
    match outcome {
        AttemptOutcome::Settled { all_endorsed } => all_endorsed,
        AttemptOutcome::Canceled { all_endorsed } => all_endorsed,
        AttemptOutcome::Failed(_) => false,
    }
}

/// The termination condition holds of the attempts made so far.
pub open spec fn satisfied(termination: Termination, outcomes: Seq<AttemptOutcome>) -> bool {
    match termination {
        Termination::UntilEndorsed => outcomes.len() > 0 && endorsed(outcomes.last()),
        Termination::AttemptBudget(budget) => outcomes.len() >= budget,
    }
}

/// What follows an attempt that ended with `latest`, given all outcomes
/// including it.
pub open spec fn decision_after(
    termination: Termination,
    outcomes: Seq<AttemptOutcome>,
    latest: AttemptOutcome,
) -> LaneDecision {
    if satisfied(termination, outcomes) {
        LaneDecision::Finished
    } else if latest == AttemptOutcome::Failed(AttemptError::TransportUnavailable) {
        LaneDecision::RetryAfterBackoff
    } else {
        LaneDecision::NextAttempt
    }
}

/// Whether an outcome counts as endorsed.
pub fn is_endorsed(outcome: &AttemptOutcome) -> (yes: bool)
    ensures
        yes == endorsed(*outcome),
{
    match outcome {
        AttemptOutcome::Settled { all_endorsed } => *all_endorsed,
        AttemptOutcome::Canceled { all_endorsed } => *all_endorsed,
        AttemptOutcome::Failed(_) => false,
    }
}

impl Lane {
    /// A lane that has made no attempt yet.
    pub fn new(target_peer: String, termination: Termination) -> (lane: Lane)
        ensures
            lane.target_peer == target_peer,
            lane.termination == termination,
            lane.outcomes@ == Seq::<AttemptOutcome>::empty(),
    {
        Lane { target_peer, termination, outcomes: Vec::new() }
    }

    /// How many attempts the lane has made.
    pub fn attempt_counter(&self) -> (count: usize)
        ensures
            count == self.outcomes@.len(),
    {
        self.outcomes.len()
    }

    /// Whether the lane's termination condition is met.
    pub fn is_finished(&self) -> (finished: bool)
        ensures
            finished == satisfied(self.termination, self.outcomes@),
    {
        match self.termination {
            Termination::UntilEndorsed => {
                let n = self.outcomes.len();
                n > 0 && is_endorsed(&self.outcomes[n - 1])
            },
            Termination::AttemptBudget(budget) => self.outcomes.len() >= budget,
        }
    }

    /// Starts the lane's next attempt with a fresh commitment pair, unless
    /// the lane is finished.
    pub fn begin_attempt(
        &self,
        amount: i64,
        resolution: Resolution,
        pin: RoutingPin,
        budget_millis: Option<u64>,
    ) -> (started: Option<(Controller, Action)>)
        ensures
            started is None <==> satisfied(self.termination, self.outcomes@),
            started is Some ==> {
                &&& started->Some_0.0.wf()
                &&& started->Some_0.0 == Controller::fresh(
                    started->Some_0.0.pair,
                    amount,
                    resolution,
                    pin,
                    budget_millis,
                )
                &&& started->Some_0.1 == (Action::CreateLockedInvoice {
                    commitment: started->Some_0.0.pair.commitment,
                    amount,
                })
            },
    {
        if self.is_finished() {
            None
        } else {
            Some(Controller::start(amount, resolution, pin, budget_millis))
        }
    }

    /// Records the outcome of an attempt and decides what comes next. A
    /// failed attempt is recorded like any other and never ends the lane by
    /// itself.
    pub fn record(&mut self, outcome: AttemptOutcome) -> (decision: LaneDecision)
        ensures
            final(self).target_peer == old(self).target_peer,
            final(self).termination == old(self).termination,
            final(self).outcomes@ == old(self).outcomes@.push(outcome),
            decision == decision_after(old(self).termination, old(self).outcomes@.push(outcome), outcome),
    {
        self.outcomes.push(outcome);
        if self.is_finished() {
            LaneDecision::Finished
        } else {
            match outcome {
                AttemptOutcome::Failed(AttemptError::TransportUnavailable) => LaneDecision::RetryAfterBackoff,
                _ => LaneDecision::NextAttempt,
            }
        }
    }
}

/// One lane per target, in the order of the targets, each with the same
/// termination condition and no attempt made.
pub fn spawn_lanes(targets: &Vec<String>, termination: Termination) -> (lanes: Vec<Lane>)
    ensures
        lanes@.len() == targets@.len(),
        forall|i: int|
            0 <= i < targets@.len() ==> {
                &&& (#[trigger] lanes@[i]).target_peer == targets@[i]
                &&& lanes@[i].termination == termination
                &&& lanes@[i].outcomes@ == Seq::<AttemptOutcome>::empty()
            },
{
    let mut lanes: Vec<Lane> = Vec::new();
    let mut i: usize = 0;
    while i < targets.len()
        invariant
            i <= targets.len(),
            lanes@.len() == i,
            forall|k: int|
                0 <= k < i ==> {
                    &&& (#[trigger] lanes@[k]).target_peer == targets@[k]
                    &&& lanes@[k].termination == termination
                    &&& lanes@[k].outcomes@ == Seq::<AttemptOutcome>::empty()
                },
        decreases targets.len() - i,
    {
        lanes.push(Lane::new(targets[i].clone(), termination));
        i += 1;
    }
    lanes
}

/// Every lane has met its termination condition.
pub open spec fn joined(lanes: Seq<Lane>) -> bool {
    forall|i: int| 0 <= i < lanes.len() ==> satisfied((#[trigger] lanes[i]).termination, lanes[i].outcomes@)
}

/// Whether all lanes are finished, so that the scheduler may return.
pub fn all_joined(lanes: &Vec<Lane>) -> (done: bool)
    ensures
        done == joined(lanes@),
{
    let mut i: usize = 0;
    while i < lanes.len()
        invariant
            i <= lanes.len(),
            forall|k: int| 0 <= k < i ==> satisfied((#[trigger] lanes@[k]).termination, lanes@[k].outcomes@),
        decreases lanes.len() - i,
    {
        if !lanes[i].is_finished() {
            return false;
        }
        i += 1;
    }
    true
}

/// No two pairs share a commitment.
pub open spec fn no_collision(pairs: Seq<CommitmentPair>) -> bool {
    forall|i: int, j: int|
        0 <= i < j < pairs.len() ==> (#[trigger] pairs[i]).commitment@ != (#[trigger] pairs[j]).commitment@
}

/// Whether the pairs of a run are free of collisions.
pub fn distinct_commitments(pairs: &Vec<CommitmentPair>) -> (distinct: bool)
    ensures
        distinct == no_collision(pairs@),
{
    let mut j: usize = 0;
    while j < pairs.len()
        invariant
            j <= pairs.len(),
            forall|a: int, b: int|
                0 <= a < b < j ==> (#[trigger] pairs@[a]).commitment@ != (#[trigger] pairs@[b]).commitment@,
        decreases pairs.len() - j,
    {
        let mut i: usize = 0;
        while i < j
            invariant
                i <= j < pairs.len(),
                forall|a: int| 0 <= a < i ==> (#[trigger] pairs@[a]).commitment@ != pairs@[j as int].commitment@,
            decreases j - i,
        {
            if bytes_equal(pairs[i].commitment.as_slice(), pairs[j].commitment.as_slice()) {
                return false;
            }
            i += 1;
        }
        j += 1;
    }
    true
}

/// Recording an attempt never un-finishes a lane with an attempt budget,
/// and a lane with a budget is finished exactly when its attempts reach
/// the budget: no outcome ends it early.
pub proof fn lemma_budget_has_no_early_exit(budget: usize, outcomes: Seq<AttemptOutcome>, outcome: AttemptOutcome)
    ensures
        satisfied(Termination::AttemptBudget(budget), outcomes.push(outcome)) <==> outcomes.len() + 1
            >= budget,
        satisfied(Termination::AttemptBudget(budget), outcomes) ==> satisfied(
            Termination::AttemptBudget(budget),
            outcomes.push(outcome),
        ),
{
}

/// A retrying lane finishes on an attempt exactly when that attempt was
/// endorsed; a failed attempt never finishes it.
pub proof fn lemma_retry_ends_on_endorsement(outcomes: Seq<AttemptOutcome>, outcome: AttemptOutcome)
    ensures
        satisfied(Termination::UntilEndorsed, outcomes.push(outcome)) <==> endorsed(outcome),
        outcome is Failed ==> decision_after(Termination::UntilEndorsed, outcomes.push(outcome), outcome)
            != LaneDecision::Finished,
{
}

} // verus!
