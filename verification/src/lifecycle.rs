//! The lock lifecycle controller: one locked-invoice round trip, driven as
//! a state machine. The caller performs each action against the nodes and
//! hands back what happened as the next event.

use vstd::prelude::*;
use vstd::string::StringSliceAdditionalSpecFns;
use crate::commitment::{bytes_equal, CommitmentPair};
use crate::hexcode::{decoded, is_hex_text, try_decode_hex};
use crate::invoice::{InvoiceState, LockedInvoice, NodeError};
use crate::node::{all_endorsed, all_set, POLL_INTERVAL_MILLIS};

verus! {

/// Where one attempt stands.
#[derive(Clone, Copy, Debug, PartialEq, Eq, Structural)]
pub enum Phase {
    /// The locked invoice has been asked for and is not known yet.
    Idle,
    /// The invoice exists; the payment has been asked for.
    LockCreated,
    /// The payment is on its way; acceptance is awaited.
    PaymentDispatched,
    /// The payee holds the payment; the release has been asked for.
    Accepted,
    /// The lock is given up; the abort has been asked for.
    TimedOut,
    /// The release went through; the last inspection is awaited.
    Settled,
    /// The abort went through; the last inspection is awaited.
    Canceled,
    /// The attempt is over.
    Resolved,
}

/// What a lane does with a lock once the payee holds the payment.
#[derive(Clone, Copy, Debug, PartialEq, Eq, Structural)]
pub enum Resolution {
    /// Reveal the secret and settle.
    Release,
    /// Give the payment back, so that the attempt fails on purpose.
    Abort,
}

/// Why an attempt failed.
#[derive(Clone, Copy, Debug, PartialEq, Eq, Structural)]
pub enum AttemptError {
    /// The transport did not reach a node; the lane may try again later.
    TransportUnavailable,
    /// A node declined an operation.
    NodeRejected,
    /// A node reported something that the protocol rules out.
    ProtocolViolation,
}

/// How an attempt ended.
#[derive(Clone, Copy, Debug, PartialEq, Eq, Structural)]
pub enum AttemptOutcome {
    Settled { all_endorsed: bool },
    Canceled { all_endorsed: bool },
    Failed(AttemptError),
}

/// The route that a payment is pinned to, if any.
#[derive(Clone, Copy, Debug, PartialEq, Eq)]
pub struct RoutingPin {
    pub outgoing_channel: Option<u64>,
    pub last_hop: Option<[u8; 33]>,
}

/// What the caller observed since the last action.
#[derive(Debug, PartialEq, Eq)]
pub enum Event {
    /// The payee issued the locked invoice; this is its payment request.
    InvoiceIssued(String),
    /// The payer took the payment on.
    PaymentDispatched,
    /// The payee announced that it holds a payment for this hash.
    AcceptNotified(Vec<u8>),
    /// The payee's answer to an inspection.
    Inspected { state: InvoiceState, endorsements: Vec<bool> },
    /// The release was carried out.
    Released,
    /// The abort was carried out.
    Aborted,
    /// The operation last asked for failed.
    Failed(NodeError),
    /// The node's answer is not one that the protocol allows.
    Malformed,
}

/// What the caller is to do next.
#[derive(Debug, PartialEq, Eq)]
pub enum Action {
    CreateLockedInvoice { commitment: [u8; 32], amount: i64 },
    SendPayment { payment_request: String, pin: RoutingPin },
    /// Sleep for `after_millis`, then inspect the invoice.
    InspectInvoice { commitment: [u8; 32], after_millis: u64 },
    ReleaseLock { secret: [u8; 32] },
    AbortLock { commitment: [u8; 32] },
    /// Nothing is left to do.
    Finished(AttemptOutcome),
    /// The event does not belong to this phase; go on waiting.
    Ignored,
}

impl Event {
    /// The event that the answer to an inspection stands for.
    pub open spec fn of_inspection(state_code: i32, endorsements: Vec<bool>) -> Event {
        match InvoiceState::of_code(state_code) {
            Some(state) => Event::Inspected { state, endorsements },
            None => Event::Malformed,
        }
    }

    /// Reads the answer to an inspection: the invoice's state and the
    /// endorsement flag of each inbound unit. A state code that names no
    /// state makes the answer malformed.
    pub fn from_inspection(state_code: i32, endorsements: Vec<bool>) -> (event: Event)
        ensures
            event == Event::of_inspection(state_code, endorsements),
    {
        match InvoiceState::from_code(state_code) {
            Some(state) => Event::Inspected { state, endorsements },
            None => Event::Malformed,
        }
    }
}

/// The public key that a hexadecimal text stands for, if it stands for
/// one: a key has 33 bytes.
pub open spec fn key_of(text: Seq<u8>) -> Option<Seq<u8>> {
    if is_hex_text(text) && decoded(text).len() == 33 {
        Some(decoded(text))
    } else {
        None
    }
}

impl RoutingPin {
    /// The pin of a lane: its payments take their last hop through the
    /// lane's target peer, where the peer's name is a public key in
    /// hexadecimal, and any route where it is not.
    pub fn to_peer(target_peer: &str) -> (pin: RoutingPin)
        ensures
            pin.outgoing_channel is None,
            pin.last_hop is Some <==> key_of(target_peer.spec_bytes()) is Some,
            pin.last_hop is Some ==> pin.last_hop->Some_0@ == key_of(target_peer.spec_bytes())->Some_0,
    {
        let last_hop = match try_decode_hex(target_peer) {
            Ok(key) => {
                if key.len() == 33 {
                    let mut hop = [0u8; 33];
                    let mut i: usize = 0;
                    while i < 33
                        invariant
                            i <= 33,
                            key@.len() == 33,
                            forall|k: int| 0 <= k < i ==> hop@[k] == key@[k],
                        decreases 33 - i,
                    {
                        hop[i] = key[i];
                        i += 1;
                    }
                    assert(hop@ =~= key@);
                    Some(hop)
                } else {
                    None
                }
            },
            Err(_) => None,
        };
        RoutingPin { outgoing_channel: None, last_hop }
    }
}

/// The failure that an attempt records for a node's error.
pub open spec fn failure_of(error: NodeError) -> AttemptError {
    match error {
        NodeError::Unavailable => AttemptError::TransportUnavailable,
        NodeError::Rejected => AttemptError::NodeRejected,
    }
}

/// The time waited after one more poll interval, held at the largest
/// value that fits.
pub open spec fn waited_after_poll(waited: u64) -> u64 {
    if waited + POLL_INTERVAL_MILLIS > u64::MAX {
        u64::MAX
    } else {
        (waited + POLL_INTERVAL_MILLIS) as u64
    }
}

impl Action {
    /// The action commands the payee to settle or to cancel the lock.
    pub open spec fn is_command(self) -> bool {
        self is ReleaseLock || self is AbortLock
    }
}

/// How many of the actions command the payee to settle or to cancel.
pub open spec fn commands_among(actions: Seq<Action>) -> nat
    decreases actions.len(),
{
    if actions.len() == 0 {
        0
    } else {
        (if actions.first().is_command() {
            1nat
        } else {
            0nat
        }) + commands_among(actions.drop_first())
    }
}

/// One attempt of a lane.
#[derive(Clone, Copy, Debug, PartialEq, Eq)]
pub struct Controller {
    pub phase: Phase,
    pub resolution: Resolution,
    pub pair: CommitmentPair,
    pub amount: i64,
    pub pin: RoutingPin,
    /// How long acceptance is waited for; `None` waits without end.
    pub budget_millis: Option<u64>,
    pub waited_millis: u64,
    /// The command given to the payee for this lock, once one was given.
    pub issued: Option<Resolution>,
    pub outcome: Option<AttemptOutcome>,
}

impl Controller {
    /// The invariant of a controller: a usable pair, the one command that
    /// its phase implies, and an outcome exactly when it is resolved.
    pub open spec fn wf(self) -> bool {
        &&& self.pair.wf()
        &&& (self.phase == Phase::Resolved <==> self.outcome is Some)
        &&& match self.phase {
            Phase::Idle | Phase::LockCreated | Phase::PaymentDispatched => self.issued is None,
            Phase::Accepted | Phase::Settled => self.issued == Some(Resolution::Release),
            Phase::TimedOut | Phase::Canceled => self.issued == Some(Resolution::Abort),
            Phase::Resolved => true,
        }
        &&& (self.outcome is Some && self.outcome->Some_0 is Settled ==> self.issued == Some(
            Resolution::Release,
        ))
        &&& (self.outcome is Some && self.outcome->Some_0 is Canceled ==> self.issued != Some(
            Resolution::Release,
        ))
    }

    /// The controller of a fresh attempt around a given pair.
    pub open spec fn fresh(
        pair: CommitmentPair,
        amount: i64,
        resolution: Resolution,
        pin: RoutingPin,
        budget_millis: Option<u64>,
    ) -> Controller {
        Controller {
            phase: Phase::Idle,
            resolution,
            pair,
            amount,
            pin,
            budget_millis,
            waited_millis: 0,
            issued: None,
            outcome: None,
        }
    }

    /// The acceptance budget is used up.
    pub open spec fn out_of_time(self) -> bool {
        self.budget_millis is Some && self.waited_millis >= self.budget_millis->Some_0
    }

    /// The attempt ends with `outcome`.
    pub open spec fn resolved_with(self, outcome: AttemptOutcome) -> (Controller, Action) {
        (Controller { phase: Phase::Resolved, outcome: Some(outcome), ..self }, Action::Finished(outcome))
    }

    /// The event is left aside.
    pub open spec fn unmoved(self) -> (Controller, Action) {
        (self, Action::Ignored)
    }

    /// The lock is given up: the abort is asked for.
    pub open spec fn giving_up(self) -> (Controller, Action) {
        (
            Controller { phase: Phase::TimedOut, issued: Some(Resolution::Abort), ..self },
            Action::AbortLock { commitment: self.pair.commitment },
        )
    }

    /// The payee holds the payment: the lane's resolution is carried out.
    pub open spec fn on_accepted(self) -> (Controller, Action) {
        match self.resolution {
            Resolution::Release => (
                Controller { phase: Phase::Accepted, issued: Some(Resolution::Release), ..self },
                Action::ReleaseLock { secret: self.pair.secret },
            ),
            Resolution::Abort => self.giving_up(),
        }
    }

    /// The invoice is to be inspected after `after_millis`, in `phase`.
    pub open spec fn inspecting(self, phase: Phase, after_millis: u64) -> (Controller, Action) {
        (
            Controller { phase, ..self },
            Action::InspectInvoice { commitment: self.pair.commitment, after_millis },
        )
    }

    /// What an inspection means while acceptance is awaited.
    pub open spec fn while_dispatched(self, state: InvoiceState, endorsements: Seq<bool>) -> (
        Controller,
        Action,
    ) {
        match state {
            InvoiceState::Accepted => self.on_accepted(),
            InvoiceState::Open => if self.out_of_time() {
                self.giving_up()
            } else {
                (
                    Controller { waited_millis: waited_after_poll(self.waited_millis), ..self },
                    Action::InspectInvoice {
                        commitment: self.pair.commitment,
                        after_millis: POLL_INTERVAL_MILLIS,
                    },
                )
            },
            InvoiceState::Canceled => self.resolved_with(
                AttemptOutcome::Canceled { all_endorsed: all_set(endorsements) },
            ),
            InvoiceState::Settled => self.resolved_with(
                AttemptOutcome::Failed(AttemptError::ProtocolViolation),
            ),
        }
    }

    /// What the last inspection means, after a release (`settled`) or
    /// after an abort.
    pub open spec fn at_last_inspection(
        self,
        settled: bool,
        state: InvoiceState,
        endorsements: Seq<bool>,
    ) -> (Controller, Action) {
        if settled && state == InvoiceState::Settled {
            self.resolved_with(AttemptOutcome::Settled { all_endorsed: all_set(endorsements) })
        } else if !settled && state == InvoiceState::Canceled {
            self.resolved_with(AttemptOutcome::Canceled { all_endorsed: all_set(endorsements) })
        } else {
            self.resolved_with(AttemptOutcome::Failed(AttemptError::ProtocolViolation))
        }
    }

    /// The transition function: the controller and the action that follow
    /// an event.
    pub open spec fn transition(self, event: Event) -> (Controller, Action) {
        match self.phase {
            Phase::Idle => match event {
                Event::InvoiceIssued(payment_request) => (
                    Controller { phase: Phase::LockCreated, ..self },
                    Action::SendPayment { payment_request, pin: self.pin },
                ),
                Event::Failed(error) => self.resolved_with(AttemptOutcome::Failed(failure_of(error))),
                Event::Malformed => self.resolved_with(
                    AttemptOutcome::Failed(AttemptError::ProtocolViolation),
                ),
                _ => self.unmoved(),
            },
            Phase::LockCreated => match event {
                Event::PaymentDispatched => self.inspecting(Phase::PaymentDispatched, 0),
                Event::Failed(error) => self.resolved_with(AttemptOutcome::Failed(failure_of(error))),
                Event::Malformed => self.resolved_with(
                    AttemptOutcome::Failed(AttemptError::ProtocolViolation),
                ),
                _ => self.unmoved(),
            },
            Phase::PaymentDispatched => match event {
                Event::AcceptNotified(hash) => if hash@ == self.pair.commitment@ {
                    self.on_accepted()
                } else {
                    self.unmoved()
                },
                Event::Inspected { state, endorsements } => self.while_dispatched(state, endorsements@),
                Event::Failed(error) => self.resolved_with(AttemptOutcome::Failed(failure_of(error))),
                Event::Malformed => self.resolved_with(
                    AttemptOutcome::Failed(AttemptError::ProtocolViolation),
                ),
                _ => self.unmoved(),
            },
            Phase::Accepted => match event {
                Event::Released => self.inspecting(Phase::Settled, 0),
                Event::Failed(error) => self.resolved_with(AttemptOutcome::Failed(failure_of(error))),
                Event::Malformed => self.resolved_with(
                    AttemptOutcome::Failed(AttemptError::ProtocolViolation),
                ),
                _ => self.unmoved(),
            },
            Phase::TimedOut => match event {
                Event::Aborted => self.inspecting(Phase::Canceled, 0),
                Event::Failed(error) => self.resolved_with(AttemptOutcome::Failed(failure_of(error))),
                Event::Malformed => self.resolved_with(
                    AttemptOutcome::Failed(AttemptError::ProtocolViolation),
                ),
                _ => self.unmoved(),
            },
            Phase::Settled => match event {
                Event::Inspected { state, endorsements } => self.at_last_inspection(
                    true,
                    state,
                    endorsements@,
                ),
                Event::Failed(error) => self.resolved_with(AttemptOutcome::Failed(failure_of(error))),
                Event::Malformed => self.resolved_with(
                    AttemptOutcome::Failed(AttemptError::ProtocolViolation),
                ),
                _ => self.unmoved(),
            },
            Phase::Canceled => match event {
                Event::Inspected { state, endorsements } => self.at_last_inspection(
                    false,
                    state,
                    endorsements@,
                ),
                Event::Failed(error) => self.resolved_with(AttemptOutcome::Failed(failure_of(error))),
                Event::Malformed => self.resolved_with(
                    AttemptOutcome::Failed(AttemptError::ProtocolViolation),
                ),
                _ => self.unmoved(),
            },
            Phase::Resolved => match self.outcome {
                Some(outcome) => (self, Action::Finished(outcome)),
                None => self.unmoved(),
            },
        }
    }

    /// The transition for a caller that answers each action in turn: an
    /// event that does not belong to the phase is then an answer that the
    /// protocol rules out, and ends the attempt.
    pub open spec fn transition_in_turn(self, event: Event) -> (Controller, Action) {
        if self.transition(event).1 is Ignored {
            self.transition(Event::Malformed)
        } else {
            self.transition(event)
        }
    }

    /// The controller after a run of events.
    pub open spec fn after_all(self, events: Seq<Event>) -> Controller
        decreases events.len(),
    {
        if events.len() == 0 {
            self
        } else {
            self.transition(events.first()).0.after_all(events.drop_first())
        }
    }

    /// The actions that a run of events draws, one per event.
    pub open spec fn actions_drawn(self, events: Seq<Event>) -> Seq<Action>
        decreases events.len(),
    {
        if events.len() == 0 {
            Seq::empty()
        } else {
            seq![self.transition(events.first()).1] + self.transition(events.first()).0.actions_drawn(
                events.drop_first(),
            )
        }
    }

    /// Starts an attempt around a given pair. A pair whose commitment is
    /// not the digest of its secret cannot settle a lock and is refused.
    pub fn with_pair(
        pair: CommitmentPair,
        amount: i64,
        resolution: Resolution,
        pin: RoutingPin,
        budget_millis: Option<u64>,
    ) -> (started: Option<(Controller, Action)>)
        ensures
            started is Some <==> pair.wf(),
            started is Some ==> started->Some_0.0 == Controller::fresh(
                pair,
                amount,
                resolution,
                pin,
                budget_millis,
            ) && started->Some_0.1 == (Action::CreateLockedInvoice {
                commitment: pair.commitment,
                amount,
            }) && started->Some_0.0.wf(),
    {
        if !pair.is_valid() {
            return None;
        }
        let controller = Controller {
            phase: Phase::Idle,
            resolution,
            pair,
            amount,
            pin,
            budget_millis,
            waited_millis: 0,
            issued: None,
            outcome: None,
        };
        Some((controller, Action::CreateLockedInvoice { commitment: pair.commitment, amount }))
    }

    /// Starts an attempt with a freshly drawn pair and asks for the
    /// locked invoice.
    pub fn start(amount: i64, resolution: Resolution, pin: RoutingPin, budget_millis: Option<u64>) -> (started: (
        Controller,
        Action,
    ))
        ensures
            started.0.wf(),
            started.0 == Controller::fresh(started.0.pair, amount, resolution, pin, budget_millis),
            started.1 == (Action::CreateLockedInvoice { commitment: started.0.pair.commitment, amount }),
    {
        let pair = CommitmentPair::generate();
        let controller = Controller {
            phase: Phase::Idle,
            resolution,
            pair,
            amount,
            pin,
            budget_millis,
            waited_millis: 0,
            issued: None,
            outcome: None,
        };
        (controller, Action::CreateLockedInvoice { commitment: pair.commitment, amount })
    }

    fn resolve(&mut self, outcome: AttemptOutcome) -> (action: Action)
        ensures
            (*final(self), action) == old(self).resolved_with(outcome),
    {
        self.phase = Phase::Resolved;
        self.outcome = Some(outcome);
        Action::Finished(outcome)
    }

    fn fail(&mut self, error: NodeError) -> (action: Action)
        ensures
            (*final(self), action) == old(self).resolved_with(AttemptOutcome::Failed(failure_of(error))),
    {
        let failure = match error {
            NodeError::Unavailable => AttemptError::TransportUnavailable,
            NodeError::Rejected => AttemptError::NodeRejected,
        };
        self.resolve(AttemptOutcome::Failed(failure))
    }

    fn give_up(&mut self) -> (action: Action)
        ensures
            (*final(self), action) == old(self).giving_up(),
    {
        self.phase = Phase::TimedOut;
        self.issued = Some(Resolution::Abort);
        Action::AbortLock { commitment: self.pair.commitment }
    }

    fn accepted(&mut self) -> (action: Action)
        ensures
            (*final(self), action) == old(self).on_accepted(),
    {
        match self.resolution {
            Resolution::Release => {
                self.phase = Phase::Accepted;
                self.issued = Some(Resolution::Release);
                Action::ReleaseLock { secret: self.pair.secret }
            },
            Resolution::Abort => self.give_up(),
        }
    }

    fn inspect(&mut self, phase: Phase, after_millis: u64) -> (action: Action)
        ensures
            (*final(self), action) == old(self).inspecting(phase, after_millis),
    {
        self.phase = phase;
        Action::InspectInvoice { commitment: self.pair.commitment, after_millis }
    }

    fn dispatched_inspection(&mut self, state: InvoiceState, endorsements: &Vec<bool>) -> (action: Action)
        ensures
            (*final(self), action) == old(self).while_dispatched(state, endorsements@),
    {
        match state {
            InvoiceState::Accepted => self.accepted(),
            InvoiceState::Open => {
                let out_of_time = match self.budget_millis {
                    Some(budget) => self.waited_millis >= budget,
                    None => false,
                };
                if out_of_time {
                    self.give_up()
                } else {
                    self.waited_millis = if self.waited_millis > u64::MAX - POLL_INTERVAL_MILLIS {
                        u64::MAX
                    } else {
                        self.waited_millis + POLL_INTERVAL_MILLIS
                    };
                    Action::InspectInvoice {
                        commitment: self.pair.commitment,
                        after_millis: POLL_INTERVAL_MILLIS,
                    }
                }
            },
            InvoiceState::Canceled => {
                let endorsed = all_endorsed(endorsements.as_slice());
                self.resolve(AttemptOutcome::Canceled { all_endorsed: endorsed })
            },
            InvoiceState::Settled => self.resolve(AttemptOutcome::Failed(AttemptError::ProtocolViolation)),
        }
    }

    fn last_inspection(&mut self, settled: bool, state: InvoiceState, endorsements: &Vec<bool>) -> (action: Action)
        ensures
            (*final(self), action) == old(self).at_last_inspection(settled, state, endorsements@),
    {
        let endorsed = all_endorsed(endorsements.as_slice());
        match state {
            InvoiceState::Settled => if settled {
                self.resolve(AttemptOutcome::Settled { all_endorsed: endorsed })
            } else {
                self.resolve(AttemptOutcome::Failed(AttemptError::ProtocolViolation))
            },
            InvoiceState::Canceled => if settled {
                self.resolve(AttemptOutcome::Failed(AttemptError::ProtocolViolation))
            } else {
                self.resolve(AttemptOutcome::Canceled { all_endorsed: endorsed })
            },
            _ => self.resolve(AttemptOutcome::Failed(AttemptError::ProtocolViolation)),
        }
    }

    /// Takes one event and says what to do next. The controller moves as
    /// the transition function says; a well-formed controller stays so.
    pub fn step(&mut self, event: Event) -> (action: Action)
        ensures
            (*final(self), action) == old(self).transition(event),
            old(self).wf() ==> final(self).wf(),
    {
        proof {
            if self.wf() {
                lemma_transition_keeps_wf(*self, event);
            }
        }
        match self.phase {
            Phase::Idle => match event {
                Event::InvoiceIssued(payment_request) => {
                    self.phase = Phase::LockCreated;
                    Action::SendPayment { payment_request, pin: self.pin }
                },
                Event::Failed(error) => self.fail(error),
                Event::Malformed => self.resolve(AttemptOutcome::Failed(AttemptError::ProtocolViolation)),
                _ => Action::Ignored,
            },
            Phase::LockCreated => match event {
                Event::PaymentDispatched => self.inspect(Phase::PaymentDispatched, 0),
                Event::Failed(error) => self.fail(error),
                Event::Malformed => self.resolve(AttemptOutcome::Failed(AttemptError::ProtocolViolation)),
                _ => Action::Ignored,
            },
            Phase::PaymentDispatched => match event {
                Event::AcceptNotified(hash) => {
                    if bytes_equal(hash.as_slice(), self.pair.commitment.as_slice()) {
                        self.accepted()
                    } else {
                        Action::Ignored
                    }
                },
                Event::Inspected { state, endorsements } => self.dispatched_inspection(state, &endorsements),
                Event::Failed(error) => self.fail(error),
                Event::Malformed => self.resolve(AttemptOutcome::Failed(AttemptError::ProtocolViolation)),
                _ => Action::Ignored,
            },
            Phase::Accepted => match event {
                Event::Released => self.inspect(Phase::Settled, 0),
                Event::Failed(error) => self.fail(error),
                Event::Malformed => self.resolve(AttemptOutcome::Failed(AttemptError::ProtocolViolation)),
                _ => Action::Ignored,
            },
            Phase::TimedOut => match event {
                Event::Aborted => self.inspect(Phase::Canceled, 0),
                Event::Failed(error) => self.fail(error),
                Event::Malformed => self.resolve(AttemptOutcome::Failed(AttemptError::ProtocolViolation)),
                _ => Action::Ignored,
            },
            Phase::Settled => match event {
                Event::Inspected { state, endorsements } => self.last_inspection(true, state, &endorsements),
                Event::Failed(error) => self.fail(error),
                Event::Malformed => self.resolve(AttemptOutcome::Failed(AttemptError::ProtocolViolation)),
                _ => Action::Ignored,
            },
            Phase::Canceled => match event {
                Event::Inspected { state, endorsements } => self.last_inspection(false, state, &endorsements),
                Event::Failed(error) => self.fail(error),
                Event::Malformed => self.resolve(AttemptOutcome::Failed(AttemptError::ProtocolViolation)),
                _ => Action::Ignored,
            },
            Phase::Resolved => match self.outcome {
                Some(outcome) => Action::Finished(outcome),
                None => Action::Ignored,
            },
        }
    }

    /// Takes the answer to the action last drawn and says what to do next.
    /// An answer out of turn ends the attempt as a protocol violation, so a
    /// well-formed controller never leaves its caller without an action.
    pub fn step_in_turn(&mut self, event: Event) -> (action: Action)
        ensures
            (*final(self), action) == old(self).transition_in_turn(event),
            old(self).wf() ==> final(self).wf() && !(action is Ignored),
            action.is_command() ==> old(self).transition(event).1 == action,
    {
        let action = self.step(event);
        match action {
            Action::Ignored => self.step(Event::Malformed),
            other => other,
        }
    }

    /// Takes a run of events in order and returns the action drawn by
    /// each.
    pub fn run(&mut self, events: Vec<Event>) -> (actions: Vec<Action>)
        ensures
            *final(self) == old(self).after_all(events@),
            actions@ == old(self).actions_drawn(events@),
            old(self).wf() ==> final(self).wf() && commands_among(actions@) <= 1,
    {
        let ghost all = events@;
        let mut remaining = events;
        let mut actions: Vec<Action> = Vec::new();
        while remaining.len() > 0
            invariant
                self.after_all(remaining@) == old(self).after_all(all),
                actions@ + self.actions_drawn(remaining@) == old(self).actions_drawn(all),
                old(self).wf() ==> self.wf(),
            decreases remaining.len(),
        {
            let ghost before = *self;
            let ghost pending = remaining@;
            let ghost drawn = actions@;
            let event = remaining.remove(0);
            assert(remaining@ =~= pending.drop_first());
            assert(event == pending.first());
            let action = self.step(event);
            actions.push(action);
            assert(actions@ + self.actions_drawn(remaining@) =~= drawn + before.actions_drawn(pending));
        }
        proof {
            assert(actions@ + Seq::<Action>::empty() =~= actions@);
            if old(self).wf() {
                lemma_at_most_one_command(*old(self), all);
            }
        }
        actions
    }

    /// Whether the attempt is over.
    pub fn is_resolved(&self) -> (resolved: bool)
        ensures
            resolved == (self.phase == Phase::Resolved),
    {
        match self.phase {
            Phase::Resolved => true,
            _ => false,
        }
    }
}

/// Every transition keeps the controller's invariant.
pub proof fn lemma_transition_keeps_wf(controller: Controller, event: Event)
    requires
        controller.wf(),
    ensures
        controller.transition(event).0.wf(),
{
}

/// One if a command has been given for the lock, else zero.
pub open spec fn commands_given(controller: Controller) -> nat {
    if controller.issued is Some {
        1
    } else {
        0
    }
}

/// A transition draws a settle or cancel command exactly when none was
/// given before, and records it; a command once given is never replaced.
pub proof fn lemma_command_is_recorded(controller: Controller, event: Event)
    requires
        controller.wf(),
    ensures
        controller.transition(event).1.is_command() <==> controller.issued is None
            && controller.transition(event).0.issued is Some,
        controller.transition(event).1 is ReleaseLock ==> controller.transition(event).0.issued == Some(
            Resolution::Release,
        ),
        controller.transition(event).1 is AbortLock ==> controller.transition(event).0.issued == Some(
            Resolution::Abort,
        ),
        controller.issued is Some ==> controller.transition(event).0.issued == controller.issued,
{
}

/// The secret that a release reveals is the one behind the commitment that
/// the invoice was asked for with, so a payee that holds the payment for
/// that commitment settles.
pub proof fn lemma_release_opens_the_lock(controller: Controller, event: Event, invoice: LockedInvoice)
    requires
        controller.wf(),
        controller.transition(event).1 is ReleaseLock,
        invoice.commitment == controller.pair.commitment,
        invoice.state == InvoiceState::Accepted,
    ensures
        invoice.can_release(controller.transition(event).1->ReleaseLock_secret@),
        controller.transition(event).1->ReleaseLock_secret == controller.pair.secret,
{
}

/// Settle and cancel exclude each other: whatever events arrive, an
/// attempt draws at most one of the two commands, and exactly the one that
/// the controller has on record at the end.
pub proof fn lemma_at_most_one_command(controller: Controller, events: Seq<Event>)
    requires
        controller.wf(),
    ensures
        controller.after_all(events).wf(),
        commands_among(controller.actions_drawn(events)) + commands_given(controller) == commands_given(
            controller.after_all(events),
        ),
        commands_among(controller.actions_drawn(events)) <= 1,
        controller.issued is Some ==> controller.after_all(events).issued == controller.issued,
    decreases events.len(),
{
    if events.len() > 0 {
        let (next, action) = controller.transition(events.first());
        let rest = next.actions_drawn(events.drop_first());
        lemma_transition_keeps_wf(controller, events.first());
        lemma_command_is_recorded(controller, events.first());
        lemma_at_most_one_command(next, events.drop_first());
        assert(controller.actions_drawn(events).first() == action);
        assert(controller.actions_drawn(events).drop_first() =~= rest);
    }
}

/// An attempt that ends settled drew the release and never the abort; one
/// that ends canceled never drew the release.
pub proof fn lemma_outcome_matches_command(controller: Controller, events: Seq<Event>)
    requires
        controller.wf(),
    ensures
        controller.after_all(events).outcome is Some && controller.after_all(
            events,
        ).outcome->Some_0 is Settled ==> controller.after_all(events).issued == Some(Resolution::Release),
        controller.after_all(events).outcome is Some && controller.after_all(
            events,
        ).outcome->Some_0 is Canceled ==> controller.after_all(events).issued != Some(
            Resolution::Release,
        ),
{
    lemma_at_most_one_command(controller, events);
}

/// Every event of the run is an inspection that finds the invoice open.
pub open spec fn all_find_open(events: Seq<Event>) -> bool {
    forall|i: int|
        0 <= i < events.len() ==> (#[trigger] events[i]) is Inspected && events[i]->state
            == InvoiceState::Open
}

/// Once the abort is asked for, further inspections change nothing.
pub proof fn lemma_inspections_after_giving_up(controller: Controller, events: Seq<Event>)
    requires
        controller.phase == Phase::TimedOut,
        all_find_open(events),
    ensures
        controller.after_all(events) == controller,
        commands_among(controller.actions_drawn(events)) == 0,
    decreases events.len(),
{
    if events.len() > 0 {
        let (next, action) = controller.transition(events.first());
        assert(events.first() == events[0]);
        assert forall|i: int| 0 <= i < events.drop_first().len() implies (#[trigger] events.drop_first()[i])
            is Inspected && events.drop_first()[i]->state == InvoiceState::Open by {
            assert(events.drop_first()[i] == events[i + 1]);
        }
        lemma_inspections_after_giving_up(controller, events.drop_first());
        assert(controller.actions_drawn(events).first() == action);
        assert(controller.actions_drawn(events).drop_first() =~= next.actions_drawn(events.drop_first()));
    }
}

/// A budget bounds the wait for acceptance: if the invoice is found open
/// at every inspection, and the inspections after the first outlast what is
/// left of the budget at one poll interval each, the lock is given up and
/// the abort is drawn exactly once.
pub proof fn lemma_budget_ends_the_wait(controller: Controller, events: Seq<Event>)
    requires
        controller.phase == Phase::PaymentDispatched,
        controller.issued is None,
        controller.budget_millis is Some,
        all_find_open(events),
        events.len() >= 1,
        controller.waited_millis + POLL_INTERVAL_MILLIS * (events.len() - 1)
            >= controller.budget_millis->Some_0,
    ensures
        controller.after_all(events).phase == Phase::TimedOut,
        controller.after_all(events).issued == Some(Resolution::Abort),
        commands_among(controller.actions_drawn(events)) == 1,
    decreases events.len(),
{
    let (next, action) = controller.transition(events.first());
    let rest = events.drop_first();
    assert(events.first() == events[0]);
    assert forall|i: int| 0 <= i < rest.len() implies (#[trigger] rest[i]) is Inspected && rest[i]->state
        == InvoiceState::Open by {
        assert(rest[i] == events[i + 1]);
    }
    assert(controller.actions_drawn(events).first() == action);
    assert(controller.actions_drawn(events).drop_first() =~= next.actions_drawn(rest));
    if controller.out_of_time() {
        lemma_inspections_after_giving_up(next, rest);
    } else {
        assert(POLL_INTERVAL_MILLIS * (events.len() - 1) == POLL_INTERVAL_MILLIS * (rest.len() - 1)
            + POLL_INTERVAL_MILLIS) by (nonlinear_arith)
            requires
                rest.len() == events.len() - 1,
        ;
        assert(rest.len() >= 1) by (nonlinear_arith)
            requires
                rest.len() == events.len() - 1,
                events.len() >= 1,
                controller.waited_millis < controller.budget_millis->Some_0,
                controller.waited_millis + POLL_INTERVAL_MILLIS * (events.len() - 1)
                    >= controller.budget_millis->Some_0,
        ;
        lemma_budget_ends_the_wait(next, rest);
    }
}

/// A resolved attempt is over: no event moves it, and none draws a
/// command.
pub proof fn lemma_resolved_is_final(controller: Controller, events: Seq<Event>)
    requires
        controller.phase == Phase::Resolved,
    ensures
        controller.after_all(events) == controller,
        commands_among(controller.actions_drawn(events)) == 0,
    decreases events.len(),
{
    if events.len() > 0 {
        let (next, action) = controller.transition(events.first());
        lemma_resolved_is_final(controller, events.drop_first());
        assert(controller.actions_drawn(events).first() == action);
        assert(controller.actions_drawn(events).drop_first() =~= next.actions_drawn(events.drop_first()));
    }
}

} // verus!
