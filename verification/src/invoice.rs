//! Locked invoices: their states, the commands a node accepts for them and
//! the rule that a lock is settled or canceled, never both.

use vstd::prelude::*;
use crate::commitment::{opens, verify};

verus! {

/// The state of an invoice as its issuing node reports it.
#[derive(Clone, Copy, Debug, PartialEq, Eq, Structural)]
pub enum InvoiceState {
    Open,
    Settled,
    Canceled,
    Accepted,
}

/// How an operation on a ledger node may fail.
#[derive(Clone, Copy, Debug, PartialEq, Eq, Structural)]
pub enum NodeError {
    /// The transport did not reach the node; the same call may be retried.
    Unavailable,
    /// The node declined the operation.
    Rejected,
}

/// The status code with which a call ends when its deadline passed before
/// the node answered.
pub const STATUS_DEADLINE_EXCEEDED: i32 = 4;

/// The status code with which a call ends when the node could not be
/// reached.
pub const STATUS_UNAVAILABLE: i32 = 14;

impl NodeError {
    /// The failure that the status code of a failed call stands for: the
    /// transport's faults may be retried, every other code is the node's
    /// refusal.
    pub open spec fn of_status(code: i32) -> NodeError {
        if code == STATUS_UNAVAILABLE || code == STATUS_DEADLINE_EXCEEDED {
            NodeError::Unavailable
        } else {
            NodeError::Rejected
        }
    }

    pub fn from_status(code: i32) -> (error: NodeError)
        ensures
            error == NodeError::of_status(code),
    {
        if code == STATUS_UNAVAILABLE || code == STATUS_DEADLINE_EXCEEDED {
            NodeError::Unavailable
        } else {
            NodeError::Rejected
        }
    }
}

impl InvoiceState {
    /// The state that a wire code stands for, if any.
    pub open spec fn of_code(code: i32) -> Option<InvoiceState> {
        if code == 0 {
            Some(InvoiceState::Open)
        } else if code == 1 {
            Some(InvoiceState::Settled)
        } else if code == 2 {
            Some(InvoiceState::Canceled)
        } else if code == 3 {
            Some(InvoiceState::Accepted)
        } else {
            None
        }
    }

    /// The wire code of a state.
    pub open spec fn spec_code(self) -> i32 {
        match self {
            InvoiceState::Open => 0,
            InvoiceState::Settled => 1,
            InvoiceState::Canceled => 2,
            InvoiceState::Accepted => 3,
        }
    }

    /// Settled and canceled invoices never change again.
    pub open spec fn terminal(self) -> bool {
        self == InvoiceState::Settled || self == InvoiceState::Canceled
    }

    pub fn from_code(code: i32) -> (state: Option<InvoiceState>)
        ensures
            state == InvoiceState::of_code(code),
    {
        match code {
            0 => Some(InvoiceState::Open),
            1 => Some(InvoiceState::Settled),
            2 => Some(InvoiceState::Canceled),
            3 => Some(InvoiceState::Accepted),
            _ => None,
        }
    }

    pub fn code(&self) -> (code: i32)
        ensures
            code == self.spec_code(),
            InvoiceState::of_code(code) == Some(*self),
    {
        match self {
            InvoiceState::Open => 0,
            InvoiceState::Settled => 1,
            InvoiceState::Canceled => 2,
            InvoiceState::Accepted => 3,
        }
    }

    pub fn is_terminal(&self) -> (terminal: bool)
        ensures
            terminal == self.terminal(),
    {
        match self {
            InvoiceState::Settled => true,
            InvoiceState::Canceled => true,
            _ => false,
        }
    }
}

/// A command that a node may be given for one of its locked invoices.
pub enum LockCommand {
    /// An inbound payment reached the invoice and is held.
    Accept,
    /// Reveal a secret to settle the lock.
    Release(Vec<u8>),
    /// Give the held payment back.
    Abort,
}

/// A payment request that releases funds only against the secret behind
/// its commitment.
#[derive(Debug, PartialEq, Eq)]
pub struct LockedInvoice {
    pub commitment: [u8; 32],
    pub amount: i64,
    pub payment_reference: String,
    pub state: InvoiceState,
}

impl LockedInvoice {
    /// The invoice in another state, all else kept.
    pub open spec fn with_state(self, state: InvoiceState) -> LockedInvoice {
        LockedInvoice { state, ..self }
    }

    /// An inbound payment can be held only while the invoice is open.
    pub open spec fn can_accept(self) -> bool {
        self.state == InvoiceState::Open
    }

    /// A release succeeds only on an accepted invoice and with the secret
    /// behind its commitment.
    pub open spec fn can_release(self, secret: Seq<u8>) -> bool {
        self.state == InvoiceState::Accepted && opens(secret, self.commitment@)
    }

    /// An abort succeeds at any time before the invoice is terminal.
    pub open spec fn can_abort(self) -> bool {
        !self.state.terminal()
    }

    /// Whether the node carries a command out.
    pub open spec fn admits(self, command: LockCommand) -> bool {
        match command {
            LockCommand::Accept => self.can_accept(),
            LockCommand::Release(secret) => self.can_release(secret@),
            LockCommand::Abort => self.can_abort(),
        }
    }

    /// The invoice after a command: a command that is not admitted leaves
    /// it as it was.
    pub open spec fn after(self, command: LockCommand) -> LockedInvoice {
        if !self.admits(command) {
            self
        } else {
            match command {
                LockCommand::Accept => self.with_state(InvoiceState::Accepted),
                LockCommand::Release(_) => self.with_state(InvoiceState::Settled),
                LockCommand::Abort => self.with_state(InvoiceState::Canceled),
            }
        }
    }

    /// The invoice after a run of commands, taken in order.
    pub open spec fn after_all(self, commands: Seq<LockCommand>) -> LockedInvoice
        decreases commands.len(),
    {
        if commands.len() == 0 {
            self
        } else {
            self.after(commands.first()).after_all(commands.drop_first())
        }
    }

    /// Issues an open invoice locked to `commitment`.
    pub fn issue(commitment: [u8; 32], amount: i64, payment_reference: String) -> (invoice: LockedInvoice)
        ensures
            invoice == (LockedInvoice { commitment, amount, payment_reference, state: InvoiceState::Open }),
    {
        LockedInvoice { commitment, amount, payment_reference, state: InvoiceState::Open }
    }

    /// Holds an inbound payment.
    pub fn accept(&mut self) -> (outcome: Result<(), NodeError>)
        ensures
            *final(self) == old(self).after(LockCommand::Accept),
            outcome is Ok <==> old(self).can_accept(),
            outcome is Err ==> outcome == Err::<(), NodeError>(NodeError::Rejected),
    {
        match self.state {
            InvoiceState::Open => {
                self.state = InvoiceState::Accepted;
                Ok(())
            },
            _ => Err(NodeError::Rejected),
        }
    }

    /// Settles the lock if `secret` is the one behind the commitment; any
    /// other secret, or an invoice that holds no payment, is rejected and
    /// the invoice stays as it was.
    pub fn release(&mut self, secret: &[u8]) -> (outcome: Result<(), NodeError>)
        ensures
            outcome is Ok <==> old(self).can_release(secret@),
            outcome is Ok ==> *final(self) == old(self).with_state(InvoiceState::Settled),
            outcome is Err ==> *final(self) == *old(self) && outcome == Err::<(), NodeError>(
                NodeError::Rejected,
            ),
    {
        match self.state {
            InvoiceState::Accepted => {
                if verify(secret, self.commitment.as_slice()) {
                    self.state = InvoiceState::Settled;
                    Ok(())
                } else {
                    Err(NodeError::Rejected)
                }
            },
            _ => Err(NodeError::Rejected),
        }
    }

    /// Carries out a command if the invoice admits it and rejects it
    /// otherwise, leaving the invoice as it was.
    pub fn apply(&mut self, command: &LockCommand) -> (outcome: Result<(), NodeError>)
        ensures
            *final(self) == old(self).after(*command),
            outcome is Ok <==> old(self).admits(*command),
            outcome is Err ==> *final(self) == *old(self) && outcome == Err::<(), NodeError>(
                NodeError::Rejected,
            ),
    {
        match command {
            LockCommand::Accept => self.accept(),
            LockCommand::Release(secret) => self.release(secret.as_slice()),
            LockCommand::Abort => self.abort(),
        }
    }

    /// Cancels the lock unless the invoice is already terminal.
    pub fn abort(&mut self) -> (outcome: Result<(), NodeError>)
        ensures
            *final(self) == old(self).after(LockCommand::Abort),
            outcome is Ok <==> old(self).can_abort(),
            outcome is Ok ==> final(self).state == InvoiceState::Canceled,
            outcome is Err ==> outcome == Err::<(), NodeError>(NodeError::Rejected),
    {
        match self.state {
            InvoiceState::Open => {
                self.state = InvoiceState::Canceled;
                Ok(())
            },
            InvoiceState::Accepted => {
                self.state = InvoiceState::Canceled;
                Ok(())
            },
            _ => Err(NodeError::Rejected),
        }
    }
}

/// A terminal invoice is immutable: no run of commands changes it.
pub proof fn lemma_terminal_is_final(invoice: LockedInvoice, commands: Seq<LockCommand>)
    requires
        invoice.state.terminal(),
    ensures
        invoice.after_all(commands) == invoice,
    decreases commands.len(),
{
    if commands.len() > 0 {
        lemma_terminal_is_final(invoice, commands.drop_first());
    }
}

/// Running two command sequences one after the other is running their
/// concatenation.
pub proof fn lemma_after_all_concat(invoice: LockedInvoice, first: Seq<LockCommand>, second: Seq<LockCommand>)
    ensures
        invoice.after_all(first + second) == invoice.after_all(first).after_all(second),
    decreases first.len(),
{
    if first.len() == 0 {
        assert(first + second =~= second);
    } else {
        assert((first + second).drop_first() =~= first.drop_first() + second);
        lemma_after_all_concat(invoice.after(first.first()), first.drop_first(), second);
    }
}

/// An invoice that leaves the accepted state becomes settled or canceled,
/// exactly one of the two, and it is settled only by the secret behind its
/// commitment.
pub proof fn lemma_leaving_accepted(invoice: LockedInvoice, command: LockCommand)
    requires
        invoice.state == InvoiceState::Accepted,
        invoice.after(command).state != InvoiceState::Accepted,
    ensures
        (invoice.after(command).state == InvoiceState::Settled) != (invoice.after(command).state
            == InvoiceState::Canceled),
        invoice.after(command).state == InvoiceState::Settled ==> command is Release && opens(
            command->Release_0@,
            invoice.commitment@,
        ),
        invoice.after(command).state == InvoiceState::Canceled ==> command is Abort,
{
}

/// Whatever commands a node is given, an invoice is never seen settled at
/// one point of its history and canceled at another.
pub proof fn lemma_settled_xor_canceled(
    invoice: LockedInvoice,
    commands: Seq<LockCommand>,
    earlier: int,
    later: int,
)
    requires
        0 <= earlier <= later <= commands.len(),
    ensures
        !(invoice.after_all(commands.take(earlier)).state == InvoiceState::Settled
            && invoice.after_all(commands.take(later)).state == InvoiceState::Canceled),
        !(invoice.after_all(commands.take(earlier)).state == InvoiceState::Canceled
            && invoice.after_all(commands.take(later)).state == InvoiceState::Settled),
{
    let head = commands.take(earlier);
    let rest = commands.subrange(earlier, later);
    assert(commands.take(later) =~= head + rest);
    lemma_after_all_concat(invoice, head, rest);
    if invoice.after_all(head).state.terminal() {
        lemma_terminal_is_final(invoice.after_all(head), rest);
    }
}

/// Releasing an accepted lock with the right secret settles it; a wrong
/// secret is not admitted and leaves it accepted.
pub proof fn lemma_release_round_trip(invoice: LockedInvoice, secret: Vec<u8>)
    requires
        invoice.state == InvoiceState::Accepted,
    ensures
        opens(secret@, invoice.commitment@) ==> invoice.after(LockCommand::Release(secret)).state
            == InvoiceState::Settled,
        !opens(secret@, invoice.commitment@) ==> invoice.after(LockCommand::Release(secret))
            == invoice,
{
}

} // verus!
