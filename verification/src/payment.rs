//! Payment attempts: the request sent to the payer and the watcher of its
//! result stream.

use vstd::prelude::*;
use crate::lifecycle::RoutingPin;

verus! {

/// The fee limit that the lanes of this library pay under, in satoshi.
pub const FEE_LIMIT_SAT: i64 = 100_000;

/// The routing timeout that the lanes of this library pay under, in
/// seconds.
pub const PAYMENT_TIMEOUT_SECONDS: i32 = 60;

/// The status that a message of a payment's result stream carries.
#[derive(Clone, Copy, Debug, PartialEq, Eq, Structural)]
pub enum PaymentStatus {
    /// The payment is still in flight.
    Pending,
    Succeeded,
    Failed,
}

impl PaymentStatus {
    /// The status that a wire code stands for: every code but those of
    /// success and failure means that the payment is still under way.
    pub open spec fn of_code(code: i32) -> PaymentStatus {
        if code == 2 {
            PaymentStatus::Succeeded
        } else if code == 3 {
            PaymentStatus::Failed
        } else {
            PaymentStatus::Pending
        }
    }

    /// Success and failure end a payment.
    pub open spec fn terminal(self) -> bool {
        self != PaymentStatus::Pending
    }

    pub fn from_code(code: i32) -> (status: PaymentStatus)
        ensures
            status == PaymentStatus::of_code(code),
    {
        match code {
            2 => PaymentStatus::Succeeded,
            3 => PaymentStatus::Failed,
            _ => PaymentStatus::Pending,
        }
    }

    pub fn is_terminal(&self) -> (terminal: bool)
        ensures
            terminal == self.terminal(),
    {
        match self {
            PaymentStatus::Pending => false,
            _ => true,
        }
    }
}

/// One message of a payment's result stream.
#[derive(Debug, PartialEq, Eq)]
pub struct PaymentUpdate {
    pub payment_hash: String,
    pub value_sat: i64,
    pub status_code: i32,
}

impl PaymentUpdate {
    /// The message reports the end of the payment.
    pub open spec fn terminal(self) -> bool {
        PaymentStatus::of_code(self.status_code).terminal()
    }

    /// An equal copy of the message.
    pub fn duplicate(&self) -> (copy: PaymentUpdate)
        ensures
            copy == *self,
    {
        PaymentUpdate {
            payment_hash: self.payment_hash.clone(),
            value_sat: self.value_sat,
            status_code: self.status_code,
        }
    }

    /// The terminal status that the message carries, if it carries one.
    pub fn terminal_status(&self) -> (status: Option<PaymentStatus>)
        ensures
            status is Some <==> self.terminal(),
            status is Some ==> status->Some_0 == PaymentStatus::of_code(self.status_code),
    {
        let status = PaymentStatus::from_code(self.status_code);
        if status.is_terminal() {
            Some(status)
        } else {
            None
        }
    }
}

/// The request that sends a payment.
#[derive(Debug, PartialEq, Eq)]
pub struct PaymentParams {
    pub payment_request: String,
    pub fee_limit_sat: i64,
    pub timeout_seconds: i32,
    pub endorsed: i32,
    pub last_hop_pubkey: Vec<u8>,
    pub outgoing_chan_ids: Vec<u64>,
}

/// The list that an optional list stands for: itself, or the empty list.
pub open spec fn or_empty<T>(list: Option<Vec<T>>) -> Seq<T> {
    match list {
        Some(items) => items@,
        None => Seq::empty(),
    }
}

/// The request that pays `payment_request` within the given fee limit and
/// routing timeout, through the given channels and last hop where they are
/// given and through any route where they are not.
pub fn send_payment(
    payment_request: String,
    fee_limit_sat: i64,
    timeout_seconds: i32,
    endorsed: i32,
    outgoing_chan_ids: Option<Vec<u64>>,
    last_hop_pubkey: Option<Vec<u8>>,
) -> (params: PaymentParams)
    ensures
        params.payment_request == payment_request,
        params.fee_limit_sat == fee_limit_sat,
        params.timeout_seconds == timeout_seconds,
        params.endorsed == endorsed,
        params.last_hop_pubkey@ == or_empty(last_hop_pubkey),
        params.outgoing_chan_ids@ == or_empty(outgoing_chan_ids),
{
    let last_hop = match last_hop_pubkey {
        Some(key) => key,
        None => Vec::new(),
    };
    let channels = match outgoing_chan_ids {
        Some(ids) => ids,
        None => Vec::new(),
    };
    PaymentParams {
        payment_request,
        fee_limit_sat,
        timeout_seconds,
        endorsed,
        last_hop_pubkey: last_hop,
        outgoing_chan_ids: channels,
    }
}

/// The channel list that a pin stands for.
pub open spec fn pinned_channels(pin: RoutingPin) -> Seq<u64> {
    match pin.outgoing_channel {
        Some(channel) => seq![channel],
        None => Seq::empty(),
    }
}

/// The last hop that a pin stands for.
pub open spec fn pinned_last_hop(pin: RoutingPin) -> Seq<u8> {
    match pin.last_hop {
        Some(key) => key@,
        None => Seq::empty(),
    }
}

/// The request that pays `payment_request` along a pinned route.
pub fn pinned_payment(
    payment_request: String,
    fee_limit_sat: i64,
    timeout_seconds: i32,
    endorsed: i32,
    pin: &RoutingPin,
) -> (params: PaymentParams)
    ensures
        params.payment_request == payment_request,
        params.fee_limit_sat == fee_limit_sat,
        params.timeout_seconds == timeout_seconds,
        params.endorsed == endorsed,
        params.last_hop_pubkey@ == pinned_last_hop(*pin),
        params.outgoing_chan_ids@ == pinned_channels(*pin),
{
    let channels: Option<Vec<u64>> = match pin.outgoing_channel {
        Some(channel) => {
            let mut ids: Vec<u64> = Vec::new();
            ids.push(channel);
            assert(ids@ =~= seq![channel]);
            Some(ids)
        },
        None => None,
    };
    let last_hop: Option<Vec<u8>> = match &pin.last_hop {
        Some(key) => {
            let mut bytes: Vec<u8> = Vec::new();
            let mut i: usize = 0;
            while i < 33
                invariant
                    i <= 33,
                    bytes@ == key@.take(i as int),
                decreases 33 - i,
            {
                bytes.push(key[i]);
                assert(key@.take(i + 1) =~= key@.take(i as int).push(key@[i as int]));
                i += 1;
            }
            assert(key@.take(33) =~= key@);
            Some(bytes)
        },
        None => None,
    };
    send_payment(payment_request, fee_limit_sat, timeout_seconds, endorsed, channels, last_hop)
}

/// Watches a payment's result stream to its end: the messages that carry a
/// terminal status, in the order of their arrival. The completion callback
/// is owed once for each of them and for no other message.
pub fn on_payment_result(stream: &Vec<PaymentUpdate>) -> (terminal: Vec<PaymentUpdate>)
    ensures
        terminal@ == stream@.filter(|update: PaymentUpdate| update.terminal()),
{
    let ghost keep = |update: PaymentUpdate| update.terminal();
    let mut terminal: Vec<PaymentUpdate> = Vec::new();
    let mut i: usize = 0;
    proof {
        reveal(Seq::filter);
        assert(stream@.take(0) =~= Seq::<PaymentUpdate>::empty());
    }
    while i < stream.len()
        invariant
            i <= stream.len(),
            keep == (|update: PaymentUpdate| update.terminal()),
            terminal@ == stream@.take(i as int).filter(keep),
        decreases stream.len() - i,
    {
        proof {
            reveal(Seq::filter);
            assert(stream@.take(i + 1).drop_last() =~= stream@.take(i as int));
            assert(stream@.take(i + 1).last() == stream@[i as int]);
        }
        match stream[i].terminal_status() {
            Some(_) => {
                terminal.push(stream[i].duplicate());
            },
            None => {},
        }
        i += 1;
    }
    proof {
        assert(stream@.take(i as int) =~= stream@);
    }
    terminal
}

/// The progress line for a message of the result stream: one for a failed
/// payment, one for a successful payment, none while it is under way.
pub fn print_payment_result(status_code: i32) -> (line: Option<&'static str>)
    ensures
        line is Some <==> PaymentStatus::of_code(status_code).terminal(),
        PaymentStatus::of_code(status_code) == PaymentStatus::Failed ==> line->Some_0@
            == "payment failed!"@,
        PaymentStatus::of_code(status_code) == PaymentStatus::Succeeded ==> line->Some_0@
            == "payment success!"@,
{
    match PaymentStatus::from_code(status_code) {
        PaymentStatus::Failed => Some("payment failed!"),
        PaymentStatus::Succeeded => Some("payment success!"),
        PaymentStatus::Pending => None,
    }
}

} // verus!
