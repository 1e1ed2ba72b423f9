use lockprobe::commitment::CommitmentPair;
use lockprobe::invoice::{InvoiceState, LockedInvoice, NodeError};
use lockprobe::lifecycle::{
    Action, AttemptError, AttemptOutcome, Controller, Event, Phase, Resolution, RoutingPin,
};

const NO_PIN: RoutingPin = RoutingPin {
    outgoing_channel: None,
    last_hop: None,
};

/// A payee that keeps one locked invoice and accepts the payment after a
/// given number of inspections, if ever.
struct Payee {
    invoice: Option<LockedInvoice>,
    accept_at_inspection: Option<u32>,
    inspections: u32,
    releases: u32,
    aborts: u32,
    payments: Vec<(String, RoutingPin)>,
    endorsements: Vec<bool>,
    slept_millis: u64,
}

impl Payee {
    fn new(accept_at_inspection: Option<u32>, endorsements: Vec<bool>) -> Payee {
        Payee {
            invoice: None,
            accept_at_inspection,
            inspections: 0,
            releases: 0,
            aborts: 0,
            payments: Vec::new(),
            endorsements,
            slept_millis: 0,
        }
    }

    fn perform(&mut self, action: Action) -> Option<Event> {
        match action {
            Action::CreateLockedInvoice { commitment, amount } => {
                self.invoice = Some(LockedInvoice::issue(commitment, amount, String::from("lnbcrt1")));
                Some(Event::InvoiceIssued(String::from("lnbcrt1")))
            }
            Action::SendPayment { payment_request, pin } => {
                self.payments.push((payment_request, pin));
                Some(Event::PaymentDispatched)
            }
            Action::InspectInvoice { commitment, after_millis } => {
                self.slept_millis += after_millis;
                let invoice = self.invoice.as_mut().unwrap();
                assert_eq!(invoice.commitment, commitment);
                if self.accept_at_inspection == Some(self.inspections) {
                    let _ = invoice.accept();
                }
                self.inspections += 1;
                Some(Event::Inspected {
                    state: invoice.state,
                    endorsements: self.endorsements.clone(),
                })
            }
            Action::ReleaseLock { secret } => {
                self.releases += 1;
                match self.invoice.as_mut().unwrap().release(&secret) {
                    Ok(()) => Some(Event::Released),
                    Err(e) => Some(Event::Failed(e)),
                }
            }
            Action::AbortLock { commitment } => {
                self.aborts += 1;
                let invoice = self.invoice.as_mut().unwrap();
                assert_eq!(invoice.commitment, commitment);
                match invoice.abort() {
                    Ok(()) => Some(Event::Aborted),
                    Err(e) => Some(Event::Failed(e)),
                }
            }
            Action::Finished(_) => None,
            Action::Ignored => None,
        }
    }

    fn state(&self) -> InvoiceState {
        self.invoice.as_ref().unwrap().state
    }
}

fn drive(controller: &mut Controller, first: Action, payee: &mut Payee) -> AttemptOutcome {
    let mut action = first;
    for _ in 0..10_000 {
        if let Action::Finished(outcome) = action {
            return outcome;
        }
        let event = payee.perform(action).unwrap();
        action = controller.step(event);
    }
    panic!("the attempt did not resolve");
}

#[test]
fn pinned_payment_is_released_and_inspected_settled() {
    let last_hop = [3u8; 33];
    let pin = RoutingPin {
        outgoing_channel: None,
        last_hop: Some(last_hop),
    };
    let (mut controller, first) = Controller::start(1000, Resolution::Release, pin, None);
    assert_eq!(
        first,
        Action::CreateLockedInvoice {
            commitment: controller.pair.commitment,
            amount: 1000
        }
    );
    let mut payee = Payee::new(Some(2), vec![true, true]);
    let outcome = drive(&mut controller, first, &mut payee);
    assert_eq!(outcome, AttemptOutcome::Settled { all_endorsed: true });
    assert_eq!(payee.state(), InvoiceState::Settled);
    assert_eq!(payee.invoice.as_ref().unwrap().amount, 1000);
    assert_eq!(payee.payments, vec![(String::from("lnbcrt1"), pin)]);
    assert_eq!(payee.releases, 1);
    assert_eq!(payee.aborts, 0);
    assert_eq!(controller.phase, Phase::Resolved);
    assert_eq!(controller.issued, Some(Resolution::Release));
    assert!(controller.is_resolved());
}

#[test]
fn timeout_before_acceptance_aborts_exactly_once() {
    let (mut controller, first) = Controller::start(1000, Resolution::Release, NO_PIN, Some(400));
    let mut payee = Payee::new(None, vec![]);
    let outcome = drive(&mut controller, first, &mut payee);
    assert_eq!(outcome, AttemptOutcome::Canceled { all_endorsed: true });
    assert_eq!(payee.state(), InvoiceState::Canceled);
    assert_eq!(payee.aborts, 1);
    assert_eq!(payee.releases, 0);
    assert_eq!(payee.slept_millis, 400);
    assert_eq!(controller.waited_millis, 400);
    assert_eq!(controller.issued, Some(Resolution::Abort));
}

#[test]
fn zero_budget_aborts_at_the_first_open_inspection() {
    let (mut controller, first) = Controller::start(5, Resolution::Release, NO_PIN, Some(0));
    let mut payee = Payee::new(Some(1), vec![]);
    let outcome = drive(&mut controller, first, &mut payee);
    assert_eq!(outcome, AttemptOutcome::Canceled { all_endorsed: true });
    assert_eq!(payee.inspections, 2);
    assert_eq!(payee.aborts, 1);
}

#[test]
fn failure_injection_aborts_an_accepted_lock() {
    let (mut controller, first) = Controller::start(1000, Resolution::Abort, NO_PIN, None);
    let mut payee = Payee::new(Some(0), vec![true, false]);
    let outcome = drive(&mut controller, first, &mut payee);
    assert_eq!(outcome, AttemptOutcome::Canceled { all_endorsed: false });
    assert_eq!(payee.state(), InvoiceState::Canceled);
    assert_eq!(payee.aborts, 1);
    assert_eq!(payee.releases, 0);
}

#[test]
fn unendorsed_unit_is_reported() {
    let (mut controller, first) = Controller::start(1000, Resolution::Release, NO_PIN, None);
    let mut payee = Payee::new(Some(0), vec![true, false, true]);
    let outcome = drive(&mut controller, first, &mut payee);
    assert_eq!(outcome, AttemptOutcome::Settled { all_endorsed: false });
}

#[test]
fn each_step_follows_the_state_machine() {
    let pair = CommitmentPair::from_secret([11u8; 32]);
    let (mut c, first) =
        Controller::with_pair(pair, 1000, Resolution::Release, NO_PIN, None).unwrap();
    assert_eq!(c.phase, Phase::Idle);
    assert_eq!(
        first,
        Action::CreateLockedInvoice {
            commitment: pair.commitment,
            amount: 1000
        }
    );
    assert_eq!(
        c.step(Event::InvoiceIssued(String::from("req"))),
        Action::SendPayment {
            payment_request: String::from("req"),
            pin: NO_PIN
        }
    );
    assert_eq!(c.phase, Phase::LockCreated);
    assert_eq!(
        c.step(Event::PaymentDispatched),
        Action::InspectInvoice {
            commitment: pair.commitment,
            after_millis: 0
        }
    );
    assert_eq!(c.phase, Phase::PaymentDispatched);
    assert_eq!(
        c.step(Event::Inspected {
            state: InvoiceState::Open,
            endorsements: vec![]
        }),
        Action::InspectInvoice {
            commitment: pair.commitment,
            after_millis: 200
        }
    );
    assert_eq!(c.waited_millis, 200);
    assert_eq!(
        c.step(Event::Inspected {
            state: InvoiceState::Accepted,
            endorsements: vec![]
        }),
        Action::ReleaseLock {
            secret: pair.secret
        }
    );
    assert_eq!(c.phase, Phase::Accepted);
    assert_eq!(
        c.step(Event::Released),
        Action::InspectInvoice {
            commitment: pair.commitment,
            after_millis: 0
        }
    );
    assert_eq!(c.phase, Phase::Settled);
    assert_eq!(
        c.step(Event::Inspected {
            state: InvoiceState::Settled,
            endorsements: vec![true]
        }),
        Action::Finished(AttemptOutcome::Settled { all_endorsed: true })
    );
    assert_eq!(c.phase, Phase::Resolved);
    assert_eq!(c.outcome, Some(AttemptOutcome::Settled { all_endorsed: true }));
}

#[test]
fn accept_notification_for_the_commitment_moves_on() {
    let pair = CommitmentPair::from_secret([12u8; 32]);
    let (mut c, _) = Controller::with_pair(pair, 1, Resolution::Release, NO_PIN, None).unwrap();
    c.step(Event::InvoiceIssued(String::from("req")));
    c.step(Event::PaymentDispatched);
    assert_eq!(c.step(Event::AcceptNotified(vec![0u8; 32])), Action::Ignored);
    assert_eq!(c.phase, Phase::PaymentDispatched);
    assert_eq!(
        c.step(Event::AcceptNotified(pair.commitment.to_vec())),
        Action::ReleaseLock {
            secret: pair.secret
        }
    );
    assert_eq!(c.phase, Phase::Accepted);
}

#[test]
fn events_out_of_turn_are_ignored() {
    let pair = CommitmentPair::from_secret([13u8; 32]);
    let (mut c, _) = Controller::with_pair(pair, 1, Resolution::Release, NO_PIN, None).unwrap();
    let before = c;
    assert_eq!(c.step(Event::Released), Action::Ignored);
    assert_eq!(c.step(Event::Aborted), Action::Ignored);
    assert_eq!(c.step(Event::PaymentDispatched), Action::Ignored);
    assert_eq!(
        c.step(Event::Inspected {
            state: InvoiceState::Accepted,
            endorsements: vec![]
        }),
        Action::Ignored
    );
    assert_eq!(c, before);
}

#[test]
fn node_errors_end_the_attempt() {
    let pair = CommitmentPair::from_secret([14u8; 32]);
    let (mut c, _) = Controller::with_pair(pair, 1, Resolution::Release, NO_PIN, None).unwrap();
    assert_eq!(
        c.step(Event::Failed(NodeError::Unavailable)),
        Action::Finished(AttemptOutcome::Failed(AttemptError::TransportUnavailable))
    );
    assert!(c.is_resolved());

    let (mut c, _) = Controller::with_pair(pair, 1, Resolution::Release, NO_PIN, None).unwrap();
    c.step(Event::InvoiceIssued(String::from("req")));
    assert_eq!(
        c.step(Event::Failed(NodeError::Rejected)),
        Action::Finished(AttemptOutcome::Failed(AttemptError::NodeRejected))
    );
    assert_eq!(c.issued, None);
}

#[test]
fn settlement_nobody_asked_for_is_a_protocol_violation() {
    let pair = CommitmentPair::from_secret([15u8; 32]);
    let (mut c, _) = Controller::with_pair(pair, 1, Resolution::Release, NO_PIN, None).unwrap();
    c.step(Event::InvoiceIssued(String::from("req")));
    c.step(Event::PaymentDispatched);
    assert_eq!(
        c.step(Event::Inspected {
            state: InvoiceState::Settled,
            endorsements: vec![]
        }),
        Action::Finished(AttemptOutcome::Failed(AttemptError::ProtocolViolation))
    );
}

#[test]
fn last_inspection_must_confirm_the_command() {
    let pair = CommitmentPair::from_secret([16u8; 32]);
    let (mut c, _) = Controller::with_pair(pair, 1, Resolution::Release, NO_PIN, None).unwrap();
    c.step(Event::InvoiceIssued(String::from("req")));
    c.step(Event::PaymentDispatched);
    c.step(Event::AcceptNotified(pair.commitment.to_vec()));
    c.step(Event::Released);
    assert_eq!(
        c.step(Event::Inspected {
            state: InvoiceState::Canceled,
            endorsements: vec![]
        }),
        Action::Finished(AttemptOutcome::Failed(AttemptError::ProtocolViolation))
    );
}

#[test]
fn invoice_canceled_by_the_node_resolves_without_a_command() {
    let pair = CommitmentPair::from_secret([17u8; 32]);
    let (mut c, _) = Controller::with_pair(pair, 1, Resolution::Release, NO_PIN, None).unwrap();
    c.step(Event::InvoiceIssued(String::from("req")));
    c.step(Event::PaymentDispatched);
    assert_eq!(
        c.step(Event::Inspected {
            state: InvoiceState::Canceled,
            endorsements: vec![false]
        }),
        Action::Finished(AttemptOutcome::Canceled { all_endorsed: false })
    );
    assert_eq!(c.issued, None);
}

#[test]
fn resolved_attempt_repeats_its_outcome() {
    let pair = CommitmentPair::from_secret([18u8; 32]);
    let (mut c, _) = Controller::with_pair(pair, 1, Resolution::Abort, NO_PIN, None).unwrap();
    c.step(Event::Failed(NodeError::Rejected));
    let resolved = c;
    for _ in 0..3 {
        assert_eq!(
            c.step(Event::Released),
            Action::Finished(AttemptOutcome::Failed(AttemptError::NodeRejected))
        );
        assert_eq!(c, resolved);
    }
}

#[test]
fn waited_time_saturates() {
    let pair = CommitmentPair::from_secret([19u8; 32]);
    let (mut c, _) = Controller::with_pair(pair, 1, Resolution::Release, NO_PIN, None).unwrap();
    c.step(Event::InvoiceIssued(String::from("req")));
    c.step(Event::PaymentDispatched);
    c.waited_millis = u64::MAX - 100;
    c.step(Event::Inspected {
        state: InvoiceState::Open,
        endorsements: vec![],
    });
    assert_eq!(c.waited_millis, u64::MAX);
}

#[test]
fn pair_that_does_not_commit_is_refused() {
    let mut pair = CommitmentPair::from_secret([20u8; 32]);
    pair.commitment[5] ^= 1;
    assert_eq!(
        Controller::with_pair(pair, 1, Resolution::Release, NO_PIN, None),
        None
    );
}

#[test]
fn run_draws_one_action_per_event_and_one_command() {
    let pair = CommitmentPair::from_secret([21u8; 32]);
    let (mut c, _) =
        Controller::with_pair(pair, 1000, Resolution::Release, NO_PIN, Some(200)).unwrap();
    let open = || Event::Inspected {
        state: InvoiceState::Open,
        endorsements: vec![],
    };
    let events = vec![
        Event::InvoiceIssued(String::from("req")),
        Event::PaymentDispatched,
        open(),
        Event::Released,
        open(),
        Event::Aborted,
        Event::AcceptNotified(pair.commitment.to_vec()),
        Event::Inspected {
            state: InvoiceState::Canceled,
            endorsements: vec![],
        },
        Event::Released,
    ];
    let actions = c.run(events);
    let inspect = |after_millis| Action::InspectInvoice {
        commitment: pair.commitment,
        after_millis,
    };
    let canceled = AttemptOutcome::Canceled { all_endorsed: true };
    assert_eq!(
        actions,
        vec![
            Action::SendPayment {
                payment_request: String::from("req"),
                pin: NO_PIN
            },
            inspect(0),
            inspect(200),
            Action::Ignored,
            Action::AbortLock {
                commitment: pair.commitment
            },
            inspect(0),
            Action::Ignored,
            Action::Finished(canceled),
            Action::Finished(canceled),
        ]
    );
    let commands = actions
        .iter()
        .filter(|a| matches!(a, Action::ReleaseLock { .. } | Action::AbortLock { .. }))
        .count();
    assert_eq!(commands, 1);
    assert_eq!(c.outcome, Some(canceled));
    assert_eq!(c.run(Vec::new()), Vec::new());
}

#[test]
fn malformed_answer_is_a_protocol_violation_in_every_open_phase() {
    let pair = CommitmentPair::from_secret([22u8; 32]);
    let violation = Action::Finished(AttemptOutcome::Failed(AttemptError::ProtocolViolation));
    let prefixes: Vec<Vec<Event>> = vec![
        vec![],
        vec![Event::InvoiceIssued(String::from("r"))],
        vec![Event::InvoiceIssued(String::from("r")), Event::PaymentDispatched],
        vec![
            Event::InvoiceIssued(String::from("r")),
            Event::PaymentDispatched,
            Event::AcceptNotified(pair.commitment.to_vec()),
        ],
        vec![
            Event::InvoiceIssued(String::from("r")),
            Event::PaymentDispatched,
            Event::AcceptNotified(pair.commitment.to_vec()),
            Event::Released,
        ],
    ];
    for prefix in prefixes {
        let (mut c, _) =
            Controller::with_pair(pair, 1, Resolution::Release, NO_PIN, None).unwrap();
        c.run(prefix);
        assert!(!c.is_resolved());
        assert_eq!(c.step(Event::Malformed), violation);
        assert!(c.is_resolved());
    }
}

#[test]
fn answer_out_of_turn_ends_an_attempt_stepped_in_turn() {
    let pair = CommitmentPair::from_secret([23u8; 32]);
    let (mut c, _) = Controller::with_pair(pair, 1, Resolution::Release, NO_PIN, None).unwrap();
    assert_eq!(
        c.step_in_turn(Event::InvoiceIssued(String::from("req"))),
        Action::SendPayment {
            payment_request: String::from("req"),
            pin: NO_PIN
        }
    );
    assert_eq!(
        c.step_in_turn(Event::Released),
        Action::Finished(AttemptOutcome::Failed(AttemptError::ProtocolViolation))
    );
    assert!(c.is_resolved());
    assert_eq!(c.issued, None);
    assert_eq!(
        c.step_in_turn(Event::PaymentDispatched),
        Action::Finished(AttemptOutcome::Failed(AttemptError::ProtocolViolation))
    );
}

#[test]
fn inspection_answers_are_read_by_their_state_code() {
    assert_eq!(
        Event::from_inspection(3, vec![true, false]),
        Event::Inspected {
            state: InvoiceState::Accepted,
            endorsements: vec![true, false]
        }
    );
    assert_eq!(
        Event::from_inspection(0, vec![]),
        Event::Inspected {
            state: InvoiceState::Open,
            endorsements: vec![]
        }
    );
    assert_eq!(Event::from_inspection(4, vec![true]), Event::Malformed);
    assert_eq!(Event::from_inspection(-1, vec![]), Event::Malformed);
}

#[test]
fn lane_pin_is_the_peer_key_where_the_peer_has_one() {
    let mut text = String::from("02");
    let mut key = [0u8; 33];
    key[0] = 2;
    for i in 1..33 {
        key[i] = 0xa0 + i as u8;
        text.push_str(&format!("{:02x}", key[i]));
    }
    assert_eq!(
        RoutingPin::to_peer(&text),
        RoutingPin {
            outgoing_channel: None,
            last_hop: Some(key)
        }
    );
    assert_eq!(RoutingPin::to_peer("02aa"), NO_PIN);
    assert_eq!(RoutingPin::to_peer(&text[..64]), NO_PIN);
    assert_eq!(RoutingPin::to_peer(&format!("{}00", text)), NO_PIN);
    assert_eq!(RoutingPin::to_peer("not a key"), NO_PIN);
    assert_eq!(RoutingPin::to_peer(""), NO_PIN);
}
