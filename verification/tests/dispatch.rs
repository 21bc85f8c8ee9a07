use mqtt_publisher::decode::DecodeError;
use mqtt_publisher::dedup::DedupGuard;
use mqtt_publisher::dispatch::{dispatch, publishes_of, route_event, Delivery, Publish};
use mqtt_publisher::event::{ChangeEvent, EventKind, FillKey, FillNotif};

const CANCEL: &str = r#"{"txn_version":11,"event_idx":2,"time":"2023-08-01T12:00:00Z","market_id":7,"user":"0xAA","custodian_id":0,"order_id":55,"reason":3}"#;

const MAKER_SIDE: &str = r#"{"txn_version":1,"event_idx":2,"emit_address":"0xM","time":"2023-08-01T12:00:00Z","maker_address":"0xM","maker_custodian_id":4,"maker_order_id":5,"maker_side":false,"market_id":6,"price":7,"sequence_number_for_trade":8,"size":9,"taker_address":"0xT","taker_custodian_id":10,"taker_order_id":11,"taker_quote_fees_paid":12}"#;

const TAKER_SIDE: &str = r#"{"txn_version":1,"event_idx":3,"emit_address":"0xT","time":"2023-08-01T12:00:00Z","maker_address":"0xM","maker_custodian_id":4,"maker_order_id":5,"maker_side":false,"market_id":6,"price":7,"sequence_number_for_trade":8,"size":9,"taker_address":"0xT","taker_custodian_id":10,"taker_order_id":11,"taker_quote_fees_paid":12}"#;

fn topics(out: &[Publish]) -> Vec<String> {
    out.iter().map(|p| p.topic.clone()).collect()
}

#[test]
fn cancel_order_notification_is_published_once() {
    let mut guard = DedupGuard::new();
    let out = dispatch(&mut guard, "cancel_order", CANCEL).unwrap();
    assert_eq!(
        out,
        vec![Publish {
            topic: "cancel_order/7/0xAA/0".to_string(),
            payload: CANCEL.to_string(),
            delivery: Delivery::AtLeastOnce,
            retain: false,
        }]
    );
    assert_eq!(guard.pending_count(), 0);
}

#[test]
fn cancel_order_notification_is_published_again_when_it_comes_again() {
    let mut guard = DedupGuard::new();
    assert_eq!(dispatch(&mut guard, "cancel_order", CANCEL).unwrap().len(), 1);
    assert_eq!(dispatch(&mut guard, "cancel_order", CANCEL).unwrap().len(), 1);
    assert_eq!(guard.pending_count(), 0);
}

#[test]
fn fill_pair_is_published_once_maker_side_first() {
    let mut guard = DedupGuard::new();
    let first = dispatch(&mut guard, "fill", MAKER_SIDE).unwrap();
    assert_eq!(topics(&first), vec!["fill/6/0xM/4", "fill/6/0xT/10"]);
    assert_eq!(first[0].payload, MAKER_SIDE);
    assert_eq!(first[1].payload, MAKER_SIDE);
    assert_eq!(guard.pending_count(), 1);
    assert!(guard.is_pending(&FillKey { market_id: 6, taker_order_id: 11, sequence_number_for_trade: 8 }));
    let second = dispatch(&mut guard, "fill", TAKER_SIDE).unwrap();
    assert!(second.is_empty());
    assert_eq!(guard.pending_count(), 0);
}

#[test]
fn fill_pair_is_published_once_taker_side_first() {
    let mut guard = DedupGuard::new();
    let first = dispatch(&mut guard, "fill", TAKER_SIDE).unwrap();
    assert_eq!(topics(&first), vec!["fill/6/0xM/4", "fill/6/0xT/10"]);
    assert_eq!(first[0].payload, TAKER_SIDE);
    let second = dispatch(&mut guard, "fill", MAKER_SIDE).unwrap();
    assert!(second.is_empty());
    assert_eq!(guard.pending_count(), 0);
}

#[test]
fn every_message_is_delivered_at_least_once_and_not_retained() {
    let mut guard = DedupGuard::new();
    for p in dispatch(&mut guard, "fill", MAKER_SIDE).unwrap() {
        assert_eq!(p.delivery, Delivery::AtLeastOnce);
        assert!(!p.retain);
    }
}

#[test]
fn fills_of_other_trades_pass_between_the_two_of_a_pair() {
    let mut guard = DedupGuard::new();
    let other = MAKER_SIDE.replace(r#""sequence_number_for_trade":8"#, r#""sequence_number_for_trade":9"#);
    assert_eq!(dispatch(&mut guard, "fill", MAKER_SIDE).unwrap().len(), 2);
    assert_eq!(dispatch(&mut guard, "fill", &other).unwrap().len(), 2);
    assert_eq!(dispatch(&mut guard, "cancel_order", CANCEL).unwrap().len(), 1);
    assert_eq!(dispatch(&mut guard, "fill", TAKER_SIDE).unwrap().len(), 0);
    assert_eq!(guard.pending_count(), 1);
    assert_eq!(dispatch(&mut guard, "fill", &other).unwrap().len(), 0);
    assert_eq!(guard.pending_count(), 0);
}

#[test]
fn a_notification_on_an_unknown_channel_is_ignored() {
    let mut guard = DedupGuard::new();
    assert_eq!(dispatch(&mut guard, "levels", CANCEL), Ok(vec![]));
    assert_eq!(dispatch(&mut guard, "bars", "not even json"), Ok(vec![]));
    assert_eq!(guard.pending_count(), 0);
}

#[test]
fn fill_without_sequence_number_publishes_nothing() {
    let mut guard = DedupGuard::new();
    let payload = MAKER_SIDE.replace(r#""sequence_number_for_trade":8,"#, "");
    assert_eq!(
        dispatch(&mut guard, "fill", &payload),
        Err(DecodeError::Field("sequence_number_for_trade"))
    );
    assert_eq!(guard.pending_count(), 0);
}

#[test]
fn a_payload_that_cannot_be_decoded_leaves_the_guard_alone() {
    let mut guard = DedupGuard::new();
    assert_eq!(dispatch(&mut guard, "fill", MAKER_SIDE).unwrap().len(), 2);
    assert_eq!(dispatch(&mut guard, "fill", "{"), Err(DecodeError::Malformed));
    assert_eq!(dispatch(&mut guard, "fill", CANCEL), Err(DecodeError::Field("emit_address")));
    assert_eq!(guard.pending_count(), 1);
    assert_eq!(dispatch(&mut guard, "fill", TAKER_SIDE).unwrap().len(), 0);
}

#[test]
fn route_event_takes_a_decoded_event() {
    let mut guard = DedupGuard::new();
    let fill = ChangeEvent::Fill(FillNotif::decode(MAKER_SIDE).unwrap());
    assert_eq!(route_event(&mut guard, &fill).len(), 2);
    assert_eq!(route_event(&mut guard, &fill).len(), 0);
    let cancel = ChangeEvent::decode(EventKind::CancelOrder, CANCEL).unwrap();
    assert_eq!(route_event(&mut guard, &cancel), publishes_of(&cancel));
}

#[test]
fn publishes_of_ignores_the_guard() {
    let fill = ChangeEvent::Fill(FillNotif::decode(MAKER_SIDE).unwrap());
    assert_eq!(publishes_of(&fill).len(), 2);
    assert_eq!(publishes_of(&fill), publishes_of(&fill));
}
