//! The reputation-building round-tripper: plain invoices paid back and
//! forth between two parties for a fixed number of payments.

use vstd::prelude::*;
use crate::invoice::NodeError;
use crate::payment::PaymentStatus;

verus! {

/// One of the two parties of a round trip.
#[derive(Clone, Copy, Debug, PartialEq, Eq, Structural)]
pub enum Party {
    First,
    Second,
}

/// Where the round-tripper stands.
#[derive(Clone, Copy, Debug, PartialEq, Eq, Structural)]
pub enum TripPhase {
    /// The payee has been asked for an invoice.
    AwaitInvoice,
    /// The payment is under way.
    AwaitResult,
    /// All payments are made.
    Done,
}

/// What the caller observed since the last action.
#[derive(Debug, PartialEq, Eq)]
pub enum TripEvent {
    /// The payee issued an invoice; this is its payment request.
    InvoiceIssued(String),
    /// The payer's result stream delivered a message with this status.
    PaymentUpdate(i32),
    /// The operation last asked for failed.
    Failed(NodeError),
}

/// What the caller is to do next.
#[derive(Debug, PartialEq, Eq)]
pub enum TripAction {
    AddInvoice { payee: Party, amount: i64 },
    PayInvoice { payer: Party, payment_request: String },
    /// Nothing changed; go on watching.
    KeepWaiting,
    Done,
}

impl Party {
    pub open spec fn other(self) -> Party {
        match self {
            Party::First => Party::Second,
            Party::Second => Party::First,
        }
    }

    /// The opposite party.
    pub fn counterpart(&self) -> (party: Party)
        ensures
            party == self.other(),
    {
        match self {
            Party::First => Party::Second,
            Party::Second => Party::First,
        }
    }
}

/// A fixed number of payments between two parties, the roles of payer and
/// payee swapping after each.
#[derive(Clone, Copy, Debug, PartialEq, Eq)]
pub struct RoundTripper {
    pub payer: Party,
    pub amount: i64,
    /// Payments still to be made, the current one included.
    pub remaining: u64,
    pub phase: TripPhase,
}

impl RoundTripper {
    /// The invariant: the tripper is done exactly when no payment is left.
    pub open spec fn wf(self) -> bool {
        self.phase == TripPhase::Done <==> self.remaining == 0
    }

    /// The tripper and the action at the start of `iterations` payments.
    pub open spec fn initial(iterations: u64, amount: i64) -> (RoundTripper, TripAction) {
        if iterations == 0 {
            (
                RoundTripper { payer: Party::First, amount, remaining: 0, phase: TripPhase::Done },
                TripAction::Done,
            )
        } else {
            (
                RoundTripper {
                    payer: Party::First,
                    amount,
                    remaining: iterations,
                    phase: TripPhase::AwaitInvoice,
                },
                TripAction::AddInvoice { payee: Party::Second, amount },
            )
        }
    }

    /// One payment is over: the roles swap, and the next payment starts
    /// unless it was the last.
    pub open spec fn turned(self) -> (RoundTripper, TripAction) {
        if self.remaining <= 1 {
            (
                RoundTripper { payer: self.payer.other(), remaining: 0, phase: TripPhase::Done, ..self },
                TripAction::Done,
            )
        } else {
            (
                RoundTripper {
                    payer: self.payer.other(),
                    remaining: (self.remaining - 1) as u64,
                    phase: TripPhase::AwaitInvoice,
                    ..self
                },
                TripAction::AddInvoice { payee: self.payer, amount: self.amount },
            )
        }
    }

    /// The transition function. A terminal status ends the current payment,
    /// and so does a failure; nothing is retried.
    pub open spec fn transition(self, event: TripEvent) -> (RoundTripper, TripAction) {
        match self.phase {
            TripPhase::AwaitInvoice => match event {
                TripEvent::InvoiceIssued(payment_request) => (
                    RoundTripper { phase: TripPhase::AwaitResult, ..self },
                    TripAction::PayInvoice { payer: self.payer, payment_request },
                ),
                TripEvent::Failed(_) => self.turned(),
                TripEvent::PaymentUpdate(_) => (self, TripAction::KeepWaiting),
            },
            TripPhase::AwaitResult => match event {
                TripEvent::PaymentUpdate(code) => if PaymentStatus::of_code(code).terminal() {
                    self.turned()
                } else {
                    (self, TripAction::KeepWaiting)
                },
                TripEvent::Failed(_) => self.turned(),
                TripEvent::InvoiceIssued(_) => (self, TripAction::KeepWaiting),
            },
            TripPhase::Done => (self, TripAction::Done),
        }
    }

    /// Starts a run of `iterations` payments of `amount`, the first party
    /// paying first.
    pub fn start(iterations: u64, amount: i64) -> (started: (RoundTripper, TripAction))
        ensures
            started == RoundTripper::initial(iterations, amount),
            started.0.wf(),
    {
        if iterations == 0 {
            (RoundTripper { payer: Party::First, amount, remaining: 0, phase: TripPhase::Done }, TripAction::Done)
        } else {
            (
                RoundTripper { payer: Party::First, amount, remaining: iterations, phase: TripPhase::AwaitInvoice },
                TripAction::AddInvoice { payee: Party::Second, amount },
            )
        }
    }

    fn turn(&mut self) -> (action: TripAction)
        ensures
            (*final(self), action) == old(self).turned(),
    {
        let payee = self.payer;
        self.payer = self.payer.counterpart();
        if self.remaining <= 1 {
            self.remaining = 0;
            self.phase = TripPhase::Done;
            TripAction::Done
        } else {
            self.remaining = self.remaining - 1;
            self.phase = TripPhase::AwaitInvoice;
            TripAction::AddInvoice { payee, amount: self.amount }
        }
    }

    /// Takes one event and says what to do next.
    pub fn step(&mut self, event: TripEvent) -> (action: TripAction)
        ensures
            (*final(self), action) == old(self).transition(event),
            old(self).wf() ==> final(self).wf(),
            final(self).remaining <= old(self).remaining,
    {
        match self.phase {
            TripPhase::AwaitInvoice => match event {
                TripEvent::InvoiceIssued(payment_request) => {
                    self.phase = TripPhase::AwaitResult;
                    TripAction::PayInvoice { payer: self.payer, payment_request }
                },
                TripEvent::Failed(_) => self.turn(),
                TripEvent::PaymentUpdate(_) => TripAction::KeepWaiting,
            },
            TripPhase::AwaitResult => match event {
                TripEvent::PaymentUpdate(code) => {
                    if PaymentStatus::from_code(code).is_terminal() {
                        self.turn()
                    } else {
                        TripAction::KeepWaiting
                    }
                },
                TripEvent::Failed(_) => self.turn(),
                TripEvent::InvoiceIssued(_) => TripAction::KeepWaiting,
            },
            TripPhase::Done => TripAction::Done,
        }
    }
}

/// The payment count is the only thing that ends a run: each transition
/// leaves the count as it is or takes one off, it takes one off only when
/// a payment ends, and a tripper that is done stays done.
pub proof fn lemma_count_is_the_only_end(tripper: RoundTripper, event: TripEvent)
    requires
        tripper.wf(),
    ensures
        tripper.transition(event).0.wf(),
        tripper.transition(event).0.remaining == tripper.remaining || tripper.transition(
            event,
        ).0.remaining == tripper.remaining - 1,
        tripper.transition(event).0.remaining < tripper.remaining ==> tripper.transition(event).0.payer
            == tripper.payer.other(),
        tripper.transition(event).0.phase == TripPhase::Done && tripper.phase != TripPhase::Done
            ==> tripper.remaining == 1,
        tripper.phase == TripPhase::Done ==> tripper.transition(event) == (tripper, TripAction::Done),
{
}

} // verus!
