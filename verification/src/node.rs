//! The plain-value side of a ledger node handle: what is asked of a node
//! and what is read from its answers.

use vstd::prelude::*;
use vstd::string::StringSliceAdditionalSpecFns;
use vstd::utf8::encode_utf8;
use crate::commitment::bytes_equal;
use crate::hexcode::{
    decode_hex, decode_outcome, decoded, encode_hex, encoded_text, is_hex_text, try_decode_hex, HexError,
};
use crate::invoice::InvoiceState;

verus! {

/// How long a poll for acceptance sleeps between two lookups.
pub const POLL_INTERVAL_MILLIS: u64 = 200;

/// Capacity of each channel opened towards a target.
pub const TARGET_CHANNEL_CAPACITY: i64 = 1_000_000;

/// Amount pushed to the far side of each channel opened towards a target.
pub const TARGET_CHANNEL_PUSH: i64 = 400_000;

/// One channel of the local node.
#[derive(Debug, PartialEq, Eq)]
pub struct ChannelInfo {
    pub chan_id: u64,
    pub remote_pubkey: String,
    pub capacity: i64,
    pub active: bool,
}

/// One channel of the public graph, between two nodes.
#[derive(Debug, PartialEq, Eq)]
pub struct ChannelEdge {
    pub channel_id: u64,
    pub node1_pub: String,
    pub node2_pub: String,
}

/// The request that opens a channel.
#[derive(Debug, PartialEq, Eq)]
pub struct OpenChannelParams {
    pub node_pubkey: Vec<u8>,
    pub local_funding_amount: i64,
    pub push_sat: i64,
}

/// The funding transaction of a new channel, as the node names it.
#[derive(Debug, PartialEq, Eq)]
pub enum FundingTxid {
    Bytes(Vec<u8>),
    Text(String),
}

/// What a poll for acceptance does after one lookup.
#[derive(Clone, Copy, Debug, PartialEq, Eq, Structural)]
pub enum PollStep {
    /// The invoice holds a payment: stop polling.
    Accepted,
    /// Sleep this many milliseconds, then look again.
    SleepMillis(u64),
}

impl ChannelInfo {
    /// An equal copy of the channel.
    pub fn duplicate(&self) -> (copy: ChannelInfo)
        ensures
            copy == *self,
    {
        ChannelInfo {
            chan_id: self.chan_id,
            remote_pubkey: self.remote_pubkey.clone(),
            capacity: self.capacity,
            active: self.active,
        }
    }
}

impl ChannelEdge {
    /// The end of the edge that is not `node`: the second end where the
    /// first is `node`, else the first.
    pub open spec fn far_end(self, node: Seq<char>) -> Seq<char> {
        if self.node1_pub@ == node {
            self.node2_pub@
        } else {
            self.node1_pub@
        }
    }
}

/// The channels whose remote end is `pubkey`, in their listed order.
pub fn get_channels_for_peer(channels: &Vec<ChannelInfo>, pubkey: &String) -> (matching: Vec<ChannelInfo>)
    ensures
        matching@ == channels@.filter(|c: ChannelInfo| c.remote_pubkey@ == pubkey@),
{
    let ghost keep = |c: ChannelInfo| c.remote_pubkey@ == pubkey@;
    let mut matching: Vec<ChannelInfo> = Vec::new();
    let mut i: usize = 0;
    proof {
        reveal(Seq::filter);
        assert(channels@.take(0) =~= Seq::<ChannelInfo>::empty());
    }
    while i < channels.len()
        invariant
            i <= channels.len(),
            keep == (|c: ChannelInfo| c.remote_pubkey@ == pubkey@),
            matching@ == channels@.take(i as int).filter(keep),
        decreases channels.len() - i,
    {
        proof {
            reveal(Seq::filter);
            assert(channels@.take(i + 1).drop_last() =~= channels@.take(i as int));
            assert(channels@.take(i + 1).last() == channels@[i as int]);
        }
        if channels[i].remote_pubkey == *pubkey {
            matching.push(channels[i].duplicate());
        }
        i += 1;
    }
    proof {
        assert(channels@.take(i as int) =~= channels@);
    }
    matching
}

/// The far end of each edge, in order, one per edge.
pub open spec fn far_ends(edges: Seq<ChannelEdge>, node: Seq<char>) -> Seq<Seq<char>> {
    Seq::new(edges.len(), |i: int| edges[i].far_end(node))
}

/// A list without its repeats: each item once, at the place of its first
/// occurrence.
pub open spec fn first_occurrences(items: Seq<Seq<char>>) -> Seq<Seq<char>>
    decreases items.len(),
{
    if items.len() == 0 {
        Seq::empty()
    } else {
        let earlier = first_occurrences(items.drop_last());
        if earlier.contains(items.last()) {
            earlier
        } else {
            earlier.push(items.last())
        }
    }
}

/// The texts of a list of strings.
pub open spec fn names(list: Seq<String>) -> Seq<Seq<char>> {
    Seq::new(list.len(), |i: int| list[i]@)
}

/// Dropping repeats keeps every item and leaves none twice.
pub proof fn lemma_first_occurrences(items: Seq<Seq<char>>)
    ensures
        first_occurrences(items).no_duplicates(),
        first_occurrences(items).len() <= items.len(),
        forall|x: Seq<char>|
            #![trigger first_occurrences(items).contains(x)]
            #![trigger items.contains(x)]
            first_occurrences(items).contains(x) <==> items.contains(x),
    decreases items.len(),
{
    if items.len() > 0 {
        let head = items.drop_last();
        let last = items.last();
        let earlier = first_occurrences(head);
        let all = first_occurrences(items);
        lemma_first_occurrences(head);
        assert forall|x: Seq<char>|
            #![trigger all.contains(x)]
            #![trigger items.contains(x)]
            all.contains(x) <==> items.contains(x) by {
            if items.contains(x) {
                let k = choose|k: int| 0 <= k < items.len() && items[k] == x;
                if k < items.len() - 1 {
                    assert(head[k] == x);
                    assert(head.contains(x));
                    let m = choose|m: int| 0 <= m < earlier.len() && earlier[m] == x;
                    assert(all[m] == x);
                } else if !earlier.contains(last) {
                    assert(all[all.len() - 1] == x);
                }
            }
            if all.contains(x) {
                let m = choose|m: int| 0 <= m < all.len() && all[m] == x;
                if m < earlier.len() {
                    assert(earlier[m] == x);
                    assert(earlier.contains(x));
                    let k = choose|k: int| 0 <= k < head.len() && head[k] == x;
                    assert(items[k] == x);
                } else {
                    assert(items[items.len() - 1] == x);
                }
            }
        }
        assert forall|a: int, b: int| 0 <= a < all.len() && 0 <= b < all.len() && a != b implies all[a]
            != all[b] by {
            if a < earlier.len() && b < earlier.len() {
                assert(earlier[a] != earlier[b]);
            } else if a < earlier.len() {
                assert(earlier.contains(earlier[a]));
            } else if b < earlier.len() {
                assert(earlier.contains(earlier[b]));
            }
        }
    }
}

/// A node is not among its own neighbours where each of its channels has
/// it at exactly one end.
pub proof fn lemma_node_is_no_neighbour(edges: Seq<ChannelEdge>, node: Seq<char>)
    requires
        forall|i: int|
            0 <= i < edges.len() ==> ((#[trigger] edges[i]).node1_pub@ == node) != (edges[i].node2_pub@
                == node),
    ensures
        !first_occurrences(far_ends(edges, node)).contains(node),
{
    let ends = far_ends(edges, node);
    lemma_first_occurrences(ends);
    if ends.contains(node) {
        let k = choose|k: int| 0 <= k < ends.len() && ends[k] == node;
        assert(edges[k].far_end(node) == node);
    }
}

/// Whether a text is in a list of strings.
pub fn contains_name(list: &Vec<String>, name: &String) -> (found: bool)
    ensures
        found == names(list@).contains(name@),
{
    let mut i: usize = 0;
    while i < list.len()
        invariant
            i <= list.len(),
            forall|k: int| 0 <= k < i ==> names(list@)[k] != name@,
        decreases list.len() - i,
    {
        if list[i] == *name {
            assert(names(list@)[i as int] == name@);
            return true;
        }
        i += 1;
    }
    false
}

/// The neighbours of `node_pubkey` in the graph, given its channels: the
/// node at the far end of each channel, each neighbour once, in the order
/// in which the channels first lead to it.
pub fn graph_get_node_peers(edges: &Vec<ChannelEdge>, node_pubkey: &String) -> (peers: Vec<String>)
    ensures
        names(peers@) == first_occurrences(far_ends(edges@, node_pubkey@)),
        names(peers@).no_duplicates(),
        peers@.len() <= edges@.len(),
        forall|i: int|
            0 <= i < edges@.len() ==> names(peers@).contains((#[trigger] edges@[i]).far_end(node_pubkey@)),
        forall|j: int|
            0 <= j < peers@.len() ==> far_ends(edges@, node_pubkey@).contains((#[trigger] peers@[j])@),
{
    let ghost ends = far_ends(edges@, node_pubkey@);
    let mut peers: Vec<String> = Vec::new();
    let mut i: usize = 0;
    proof {
        assert(ends.take(0) =~= Seq::<Seq<char>>::empty());
        assert(names(peers@) =~= Seq::<Seq<char>>::empty());
    }
    while i < edges.len()
        invariant
            i <= edges.len(),
            ends == far_ends(edges@, node_pubkey@),
            names(peers@) == first_occurrences(ends.take(i as int)),
        decreases edges.len() - i,
    {
        let ghost before = peers@;
        let far: &String = if edges[i].node1_pub == *node_pubkey {
            &edges[i].node2_pub
        } else {
            &edges[i].node1_pub
        };
        proof {
            assert(ends.take(i + 1).drop_last() =~= ends.take(i as int));
            assert(ends.take(i + 1).last() == far@);
        }
        if !contains_name(&peers, far) {
            peers.push(far.clone());
            assert(names(peers@) =~= names(before).push(far@));
        }
        i += 1;
    }
    proof {
        assert(ends.take(i as int) =~= ends);
        lemma_first_occurrences(ends);
        assert forall|k: int| 0 <= k < edges@.len() implies names(peers@).contains(
            (#[trigger] edges@[k]).far_end(node_pubkey@),
        ) by {
            assert(ends[k] == edges@[k].far_end(node_pubkey@));
            assert(ends.contains(ends[k]));
        }
        assert forall|j: int| 0 <= j < peers@.len() implies ends.contains((#[trigger] peers@[j])@) by {
            assert(names(peers@)[j] == peers@[j]@);
            assert(names(peers@).contains(names(peers@)[j]));
        }
    }
    peers
}

/// The request that opens a channel to the node with the given public key,
/// written in hexadecimal.
pub fn open_channel(node_pubkey: &str, local_funding_amount: i64, push_sat: i64) -> (request: OpenChannelParams)
    requires
        is_hex_text(node_pubkey.spec_bytes()),
    ensures
        request.node_pubkey@ == decoded(node_pubkey.spec_bytes()),
        request.local_funding_amount == local_funding_amount,
        request.push_sat == push_sat,
{
    OpenChannelParams { node_pubkey: decode_hex(node_pubkey), local_funding_amount, push_sat }
}

/// The request that opens a channel, for a key that may not be
/// hexadecimal: such a key is refused with its fault and no request is
/// built.
pub fn try_open_channel(node_pubkey: &str, local_funding_amount: i64, push_sat: i64) -> (request: Result<
    OpenChannelParams,
    HexError,
>)
    ensures
        request is Ok <==> is_hex_text(node_pubkey.spec_bytes()),
        request is Ok ==> request->Ok_0.node_pubkey@ == decoded(node_pubkey.spec_bytes())
            && request->Ok_0.local_funding_amount == local_funding_amount && request->Ok_0.push_sat
            == push_sat,
        request is Err ==> decode_outcome(
            node_pubkey.spec_bytes(),
            Err::<Vec<u8>, HexError>(request->Err_0),
        ),
{
    match try_decode_hex(node_pubkey) {
        Ok(_) => Ok(open_channel(node_pubkey, local_funding_amount, push_sat)),
        Err(e) => Err(e),
    }
}

/// The channel requests for a list of targets, each with the standard
/// capacity and push amount: one request for each target before the first
/// that is no hexadecimal key, in order, and the fault of that target if
/// there is one. The requests before a faulty target are still to be
/// carried out.
pub fn open_to_targets(targets: &Vec<String>) -> (plan: (Vec<OpenChannelParams>, Option<HexError>))
    ensures
        plan.0@.len() <= targets@.len(),
        forall|i: int| 0 <= i < plan.0@.len() ==> is_hex_text(encode_utf8((#[trigger] targets@[i])@)),
        forall|i: int|
            0 <= i < plan.0@.len() ==> {
                &&& (#[trigger] plan.0@[i]).node_pubkey@ == decoded(encode_utf8(targets@[i]@))
                &&& plan.0@[i].local_funding_amount == TARGET_CHANNEL_CAPACITY
                &&& plan.0@[i].push_sat == TARGET_CHANNEL_PUSH
            },
        plan.1 is None <==> plan.0@.len() == targets@.len(),
        plan.1 is Some ==> {
            &&& !is_hex_text(encode_utf8(targets@[plan.0@.len() as int]@))
            &&& decode_outcome(
                encode_utf8(targets@[plan.0@.len() as int]@),
                Err::<Vec<u8>, HexError>(plan.1->Some_0),
            )
        },
{
    let mut requests: Vec<OpenChannelParams> = Vec::new();
    let mut i: usize = 0;
    while i < targets.len()
        invariant
            i <= targets.len(),
            requests@.len() == i,
            forall|k: int| 0 <= k < i ==> is_hex_text(encode_utf8((#[trigger] targets@[k])@)),
            forall|k: int|
                0 <= k < i ==> {
                    &&& (#[trigger] requests@[k]).node_pubkey@ == decoded(encode_utf8(targets@[k]@))
                    &&& requests@[k].local_funding_amount == TARGET_CHANNEL_CAPACITY
                    &&& requests@[k].push_sat == TARGET_CHANNEL_PUSH
                },
        decreases targets.len() - i,
    {
        match try_open_channel(targets[i].as_str(), TARGET_CHANNEL_CAPACITY, TARGET_CHANNEL_PUSH) {
            Ok(request) => {
                requests.push(request);
            },
            Err(fault) => {
                return (requests, Some(fault));
            },
        }
        i += 1;
    }
    (requests, None)
}

/// The hexadecimal text of a funding transaction id given as bytes.
pub fn funding_txid_text(txid: &FundingTxid) -> (text: String)
    requires
        txid is Bytes,
    ensures
        text@ == encoded_text(txid->Bytes_0@),
{
    match txid {
        FundingTxid::Bytes(bytes) => encode_hex(bytes.as_slice()),
        FundingTxid::Text(_) => String::new(),
    }
}

/// The ledger node interface has no field for endorsement. This library
/// carries the flag in a custom record of the payment unit: this is the
/// record's type, under which the payer sets the flag on the first hop and
/// under which the payee reads it from each inbound unit.
pub const ENDORSEMENT_RECORD: u64 = 106823;

/// The value of the endorsement record for a payment: the single byte one
/// where the payment asks for endorsement, the single byte zero where it
/// does not.
pub fn endorsement_record(endorsed: i32) -> (value: Vec<u8>)
    ensures
        value@ == seq![if endorsed != 0 { 1u8 } else { 0u8 }],
        record_endorses(Some(value@)) == (endorsed != 0),
{
    let mut value: Vec<u8> = Vec::new();
    if endorsed != 0 {
        value.push(1);
        assert(value@ =~= seq![1u8]);
    } else {
        value.push(0);
        assert(value@ =~= seq![0u8]);
        assert(seq![0u8][0] != seq![1u8][0]);
    }
    value
}

/// What an endorsement record says: the unit is endorsed where the record
/// is present and is the single byte one.
pub open spec fn record_endorses(record: Option<Seq<u8>>) -> bool {
    record is Some && record->Some_0 == seq![1u8]
}

/// Whether an inbound unit is endorsed, given its endorsement record if it
/// has one.
pub fn unit_endorsed(record: Option<&[u8]>) -> (endorsed: bool)
    ensures
        endorsed == record_endorses(
            match record {
                Some(value) => Some(value@),
                None => None,
            },
        ),
{
    match record {
        Some(value) => {
            if value.len() == 1 && value[0] == 1 {
                assert(value@ =~= seq![1u8]);
                true
            } else {
                assert(seq![1u8].len() == 1 && seq![1u8][0] == 1);
                false
            }
        },
        None => false,
    }
}

/// Every flag of the sequence is set.
pub open spec fn all_set(flags: Seq<bool>) -> bool {
    forall|i: int| 0 <= i < flags.len() ==> flags[i]
}

/// Whether every inbound unit of an invoice was endorsed. An invoice with
/// no inbound unit counts as endorsed: nothing contradicts it.
pub fn all_endorsed(flags: &[bool]) -> (endorsed: bool)
    ensures
        endorsed == all_set(flags@),
        flags@.len() == 0 ==> endorsed,
{
    if flags.len() == 0 {
        return true;
    }
    let mut i: usize = 0;
    while i < flags.len()
        invariant
            i <= flags.len(),
            forall|k: int| 0 <= k < i ==> flags@[k],
        decreases flags.len() - i,
    {
        if !flags[i] {
            return false;
        }
        i += 1;
    }
    true
}

/// The progress line for one inbound unit.
pub fn endorsement_label(endorsed: bool) -> (label: &'static str)
    ensures
        label@ == (if endorsed {
            "HTLC endorsed!!"@
        } else {
            "not endorsed"@
        }),
{
    if endorsed {
        "HTLC endorsed!!"
    } else {
        "not endorsed"
    }
}

/// The progress line for each inbound unit of an inspected invoice, in
/// order.
pub fn lookup_invoice(flags: &[bool]) -> (lines: Vec<&'static str>)
    ensures
        lines@.len() == flags@.len(),
        forall|i: int|
            0 <= i < flags@.len() ==> (#[trigger] lines@[i])@ == (if flags@[i] {
                "HTLC endorsed!!"@
            } else {
                "not endorsed"@
            }),
{
    let mut lines: Vec<&'static str> = Vec::new();
    let mut i: usize = 0;
    while i < flags.len()
        invariant
            i <= flags.len(),
            lines@.len() == i,
            forall|k: int|
                0 <= k < i ==> (#[trigger] lines@[k])@ == (if flags@[k] {
                    "HTLC endorsed!!"@
                } else {
                    "not endorsed"@
                }),
        decreases flags.len() - i,
    {
        lines.push(endorsement_label(flags[i]));
        i += 1;
    }
    lines
}

/// The progress lines for a stream of invoice events: for each event, in
/// order, one line per inbound unit of its invoice.
pub fn subscribe_invoices(events: &Vec<Vec<bool>>) -> (lines: Vec<Vec<&'static str>>)
    ensures
        lines@.len() == events@.len(),
        forall|e: int|
            0 <= e < events@.len() ==> {
                &&& (#[trigger] lines@[e])@.len() == events@[e]@.len()
                &&& forall|i: int|
                    0 <= i < events@[e]@.len() ==> (#[trigger] lines@[e]@[i])@ == (if events@[e]@[i] {
                        "HTLC endorsed!!"@
                    } else {
                        "not endorsed"@
                    })
            },
{
    let mut lines: Vec<Vec<&'static str>> = Vec::new();
    let mut e: usize = 0;
    while e < events.len()
        invariant
            e <= events.len(),
            lines@.len() == e,
            forall|k: int|
                0 <= k < e ==> {
                    &&& (#[trigger] lines@[k])@.len() == events@[k]@.len()
                    &&& forall|i: int|
                        0 <= i < events@[k]@.len() ==> (#[trigger] lines@[k]@[i])@ == (if events@[k]@[i] {
                            "HTLC endorsed!!"@
                        } else {
                            "not endorsed"@
                        })
                },
        decreases events.len() - e,
    {
        lines.push(lookup_invoice(events[e].as_slice()));
        e += 1;
    }
    lines
}

/// What a poll does with the state code of one lookup: it stops on an
/// accepted invoice and otherwise sleeps for the poll interval.
pub fn poll_invoice(state_code: i32) -> (step: PollStep)
    ensures
        step == (if InvoiceState::of_code(state_code) == Some(InvoiceState::Accepted) {
            PollStep::Accepted
        } else {
            PollStep::SleepMillis(POLL_INTERVAL_MILLIS)
        }),
{
    match InvoiceState::from_code(state_code) {
        Some(InvoiceState::Accepted) => PollStep::Accepted,
        _ => PollStep::SleepMillis(POLL_INTERVAL_MILLIS),
    }
}

/// Whether an invoice event tells that the payment for `payment_hash` is
/// now held: the event is for that hash and its state is accepted.
pub fn await_invoice_accepted(event_hash: &[u8], event_state_code: i32, payment_hash: &[u8]) -> (accepted: bool)
    ensures
        accepted == (event_hash@ == payment_hash@ && InvoiceState::of_code(event_state_code) == Some(
            InvoiceState::Accepted,
        )),
{
    bytes_equal(event_hash, payment_hash) && event_state_code == 3
}

} // verus!
