use lockprobe::lifecycle::RoutingPin;
use lockprobe::payment::{
    on_payment_result, pinned_payment, print_payment_result, send_payment, PaymentStatus,
    PaymentUpdate, FEE_LIMIT_SAT, PAYMENT_TIMEOUT_SECONDS,
};

fn update(hash: &str, status_code: i32) -> PaymentUpdate {
    PaymentUpdate {
        payment_hash: String::from(hash),
        value_sat: 1000,
        status_code,
    }
}

#[test]
fn watcher_fires_once_for_pending_pending_succeeded() {
    let stream = vec![update("h", 1), update("h", 1), update("h", 2)];
    let fired = on_payment_result(&stream);
    assert_eq!(fired.len(), 1);
    assert_eq!(fired[0], update("h", 2));
    assert_eq!(fired[0].terminal_status(), Some(PaymentStatus::Succeeded));
}

#[test]
fn watcher_fires_for_each_terminal_message_in_order() {
    let stream = vec![
        update("a", 0),
        update("a", 3),
        update("b", 4),
        update("b", 2),
        update("c", 1),
    ];
    assert_eq!(on_payment_result(&stream), vec![update("a", 3), update("b", 2)]);
}

#[test]
fn watcher_of_a_stream_without_terminal_message_never_fires() {
    assert!(on_payment_result(&vec![update("a", 1), update("a", 4)]).is_empty());
    assert!(on_payment_result(&Vec::new()).is_empty());
}

#[test]
fn status_codes_map_to_statuses() {
    assert_eq!(PaymentStatus::from_code(0), PaymentStatus::Pending);
    assert_eq!(PaymentStatus::from_code(1), PaymentStatus::Pending);
    assert_eq!(PaymentStatus::from_code(2), PaymentStatus::Succeeded);
    assert_eq!(PaymentStatus::from_code(3), PaymentStatus::Failed);
    assert_eq!(PaymentStatus::from_code(4), PaymentStatus::Pending);
    assert!(PaymentStatus::Succeeded.is_terminal());
    assert!(PaymentStatus::Failed.is_terminal());
    assert!(!PaymentStatus::Pending.is_terminal());
    assert_eq!(update("x", 1).terminal_status(), None);
    assert_eq!(update("x", 3).terminal_status(), Some(PaymentStatus::Failed));
}

#[test]
fn payment_lines_report_only_the_end() {
    assert_eq!(print_payment_result(3), Some("payment failed!"));
    assert_eq!(print_payment_result(2), Some("payment success!"));
    assert_eq!(print_payment_result(1), None);
    assert_eq!(print_payment_result(0), None);
}

#[test]
fn send_payment_takes_limits_from_the_caller() {
    let params = send_payment(String::from("lnbc1"), 2500, 30, 1, None, None);
    assert_eq!(params.payment_request, "lnbc1");
    assert_eq!(params.fee_limit_sat, 2500);
    assert_eq!(params.timeout_seconds, 30);
    assert_eq!(params.endorsed, 1);
    assert!(params.last_hop_pubkey.is_empty());
    assert!(params.outgoing_chan_ids.is_empty());
}

#[test]
fn lane_limits_are_the_standard_ones() {
    let params = send_payment(
        String::from("lnbc1"),
        FEE_LIMIT_SAT,
        PAYMENT_TIMEOUT_SECONDS,
        1,
        None,
        None,
    );
    assert_eq!(params.fee_limit_sat, 100_000);
    assert_eq!(params.timeout_seconds, 60);
}

#[test]
fn send_payment_keeps_the_given_route() {
    let params = send_payment(
        String::from("lnbc2"),
        1,
        2,
        0,
        Some(vec![7, 9]),
        Some(vec![2, 3, 4]),
    );
    assert_eq!(params.outgoing_chan_ids, vec![7, 9]);
    assert_eq!(params.last_hop_pubkey, vec![2, 3, 4]);
    assert_eq!(params.endorsed, 0);
    assert_eq!(params.fee_limit_sat, 1);
    assert_eq!(params.timeout_seconds, 2);
}

#[test]
fn pinned_payment_spells_the_pin_out() {
    let mut hop = [0u8; 33];
    for (i, byte) in hop.iter_mut().enumerate() {
        *byte = i as u8 + 1;
    }
    let pin = RoutingPin {
        outgoing_channel: Some(42),
        last_hop: Some(hop),
    };
    let params = pinned_payment(String::from("lnbc3"), 100_000, 60, 1, &pin);
    assert_eq!(params.outgoing_chan_ids, vec![42]);
    assert_eq!(params.last_hop_pubkey, hop.to_vec());
    assert_eq!(params.payment_request, "lnbc3");
    assert_eq!(params.fee_limit_sat, 100_000);
    assert_eq!(params.timeout_seconds, 60);

    let free = RoutingPin {
        outgoing_channel: None,
        last_hop: None,
    };
    let params = pinned_payment(String::from("lnbc4"), 5, 6, 0, &free);
    assert!(params.outgoing_chan_ids.is_empty());
    assert!(params.last_hop_pubkey.is_empty());
    assert_eq!(params.fee_limit_sat, 5);
    assert_eq!(params.timeout_seconds, 6);
}
