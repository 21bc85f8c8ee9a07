use mqtt_publisher::event::{CancelOrderNotif, ChangeEvent, EventKind, FillNotif, PlaceLimitOrderNotif};

const CANCEL: &str = r#"{"txn_version":11,"event_idx":2,"time":"2023-08-01T12:00:00Z","market_id":7,"user":"0xAA","custodian_id":0,"order_id":55,"reason":3}"#;

const FILL: &str = r#"{"txn_version":1,"event_idx":2,"emit_address":"0xE","time":"2023-08-01T12:00:00Z","maker_address":"0xM","maker_custodian_id":4,"maker_order_id":5,"maker_side":false,"market_id":6,"price":7,"sequence_number_for_trade":8,"size":9,"taker_address":"0xT","taker_custodian_id":10,"taker_order_id":11,"taker_quote_fees_paid":12}"#;

const LIMIT: &str = r#"{"txn_version":1,"event_idx":2,"time":"2023-08-01T12:00:00Z","market_id":3,"user":"0xU","custodian_id":4,"order_id":5,"side":true,"integrator":"0xI","initial_size":6,"price":7,"restriction":-1,"self_match_behavior":2,"size":8}"#;

#[test]
fn payload_of_a_canceled_order() {
    let e = CancelOrderNotif {
        txn_version: 11,
        event_idx: 2,
        time: "2023-08-01T12:00:00Z".to_string(),
        market_id: 7,
        user: "0xAA".to_string(),
        custodian_id: 0,
        order_id: 55,
        reason: 3,
    };
    assert_eq!(e.payload(), CANCEL);
    assert_eq!(ChangeEvent::CancelOrder(e).payload(), CANCEL);
}

#[test]
fn payload_is_what_was_decoded_when_the_notification_is_compact() {
    assert_eq!(CancelOrderNotif::decode(CANCEL).unwrap().payload(), CANCEL);
    assert_eq!(FillNotif::decode(FILL).unwrap().payload(), FILL);
    assert_eq!(PlaceLimitOrderNotif::decode(LIMIT).unwrap().payload(), LIMIT);
}

#[test]
fn payload_of_every_kind_decodes_to_the_same_event() {
    let payloads = [
        (EventKind::PlaceLimitOrder, LIMIT.to_string()),
        (
            EventKind::PlaceMarketOrder,
            r#"{"txn_version":1,"event_idx":2,"time":"2023-08-01T12:00:00Z","market_id":3,"user":"0xU","custodian_id":4,"order_id":5,"direction":false,"integrator":"0xI","self_match_behavior":-2,"size":8}"#.to_string(),
        ),
        (
            EventKind::PlaceSwapOrder,
            r#"{"txn_version":1,"event_idx":2,"time":"2023-08-01T12:00:00Z","market_id":3,"order_id":5,"direction":true,"signing_account":"0xS","integrator":"0xI","min_base":1,"max_base":2,"min_quote":3,"max_quote":4,"limit_price":9}"#.to_string(),
        ),
        (
            EventKind::ChangeOrderSize,
            r#"{"txn_version":1,"event_idx":2,"time":"2023-08-01T12:00:00Z","market_id":3,"user":"0xU","custodian_id":4,"order_id":5,"side":false,"new_size":17}"#.to_string(),
        ),
        (EventKind::CancelOrder, CANCEL.to_string()),
        (EventKind::Fill, FILL.to_string()),
    ];
    for (kind, payload) in payloads {
        let event = ChangeEvent::decode(kind, &payload).unwrap();
        assert_eq!(event.payload(), payload);
        assert_eq!(ChangeEvent::decode(kind, &event.payload()), Ok(event));
    }
}

#[test]
fn payload_drops_what_the_record_does_not_hold() {
    let noisy = CANCEL.replace(r#""reason":3"#, r#""reason" : 3 , "note" : "x""#);
    assert_eq!(CancelOrderNotif::decode(&noisy).unwrap().payload(), CANCEL);
}

#[test]
fn strings_are_quoted_and_escaped() {
    let mut e = CancelOrderNotif::decode(CANCEL).unwrap();
    e.user = "a\"b\\c\n\u{1}é".to_string();
    let payload = e.payload();
    assert_eq!(
        payload,
        CANCEL.replace(r#""user":"0xAA""#, "\"user\":\"a\\\"b\\\\c\\n\\u0001é\"")
    );
    assert_eq!(CancelOrderNotif::decode(&payload), Ok(e));
}

#[test]
fn numbers_are_written_in_full() {
    let mut e = CancelOrderNotif::decode(CANCEL).unwrap();
    e.market_id = u128::MAX;
    e.reason = -32768;
    let payload = e.payload();
    assert_eq!(
        payload,
        CANCEL
            .replace(r#""market_id":7"#, r#""market_id":340282366920938463463374607431768211455"#)
            .replace(r#""reason":3"#, r#""reason":-32768"#)
    );
    let parsed: serde_json::Value = serde_json::from_str(&payload).unwrap();
    assert_eq!(parsed["market_id"].to_string(), "340282366920938463463374607431768211455");
}

#[test]
fn time_is_published_in_utc() {
    let offset = CANCEL.replace("2023-08-01T12:00:00Z", "2023-08-01T14:00:00+02:00");
    assert_eq!(CancelOrderNotif::decode(&offset).unwrap().payload(), CANCEL);
}
