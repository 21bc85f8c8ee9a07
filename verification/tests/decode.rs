use mqtt_publisher::decode::{parse_payload, DecodeError};
use mqtt_publisher::event::{
    CancelOrderNotif, ChangeEvent, ChangeOrderSizeNotif, EventKind, FillNotif,
    PlaceLimitOrderNotif, PlaceMarketOrderNotif, PlaceSwapOrderNotif,
};

const CANCEL: &str = r#"{"txn_version":11,"event_idx":2,"time":"2023-08-01T12:00:00Z","market_id":7,"user":"0xAA","custodian_id":0,"order_id":55,"reason":3}"#;

const FILL: &str = r#"{"txn_version":1,"event_idx":2,"emit_address":"0xE","time":"2023-08-01T12:00:00.5+00:00","maker_address":"0xM","maker_custodian_id":4,"maker_order_id":5,"maker_side":false,"market_id":6,"price":7,"sequence_number_for_trade":8,"size":9,"taker_address":"0xT","taker_custodian_id":10,"taker_order_id":11,"taker_quote_fees_paid":12}"#;

const FILL_WITHOUT_SEQUENCE_NUMBER: &str = r#"{"txn_version":1,"event_idx":2,"emit_address":"0xE","time":"2023-08-01T12:00:00Z","maker_address":"0xM","maker_custodian_id":4,"maker_order_id":5,"maker_side":false,"market_id":6,"price":7,"size":9,"taker_address":"0xT","taker_custodian_id":10,"taker_order_id":11,"taker_quote_fees_paid":12}"#;

#[test]
fn decodes_a_canceled_order() {
    assert_eq!(
        CancelOrderNotif::decode(CANCEL),
        Ok(CancelOrderNotif {
            txn_version: 11,
            event_idx: 2,
            time: "2023-08-01T12:00:00Z".to_string(),
            market_id: 7,
            user: "0xAA".to_string(),
            custodian_id: 0,
            order_id: 55,
            reason: 3,
        })
    );
}

#[test]
fn decodes_a_fill() {
    assert_eq!(
        FillNotif::decode(FILL),
        Ok(FillNotif {
            txn_version: 1,
            event_idx: 2,
            emit_address: "0xE".to_string(),
            time: "2023-08-01T12:00:00.500Z".to_string(),
            maker_address: "0xM".to_string(),
            maker_custodian_id: 4,
            maker_order_id: 5,
            maker_side: false,
            market_id: 6,
            price: 7,
            sequence_number_for_trade: 8,
            size: 9,
            taker_address: "0xT".to_string(),
            taker_custodian_id: 10,
            taker_order_id: 11,
            taker_quote_fees_paid: 12,
        })
    );
}

#[test]
fn decodes_a_limit_order() {
    let payload = r#"{"txn_version":1,"event_idx":2,"time":"2023-08-01T12:00:00Z","market_id":3,"user":"0xU","custodian_id":4,"order_id":5,"side":true,"integrator":"0xI","initial_size":6,"price":7,"restriction":-1,"self_match_behavior":2,"size":8}"#;
    assert_eq!(
        PlaceLimitOrderNotif::decode(payload),
        Ok(PlaceLimitOrderNotif {
            txn_version: 1,
            event_idx: 2,
            time: "2023-08-01T12:00:00Z".to_string(),
            market_id: 3,
            user: "0xU".to_string(),
            custodian_id: 4,
            order_id: 5,
            side: true,
            integrator: "0xI".to_string(),
            initial_size: 6,
            price: 7,
            restriction: -1,
            self_match_behavior: 2,
            size: 8,
        })
    );
}

#[test]
fn decodes_a_market_order() {
    let payload = r#"{"txn_version":1,"event_idx":2,"time":"2023-08-01T12:00:00Z","market_id":3,"user":"0xU","custodian_id":4,"order_id":5,"direction":false,"integrator":"0xI","self_match_behavior":2,"size":8}"#;
    assert_eq!(
        PlaceMarketOrderNotif::decode(payload),
        Ok(PlaceMarketOrderNotif {
            txn_version: 1,
            event_idx: 2,
            time: "2023-08-01T12:00:00Z".to_string(),
            market_id: 3,
            user: "0xU".to_string(),
            custodian_id: 4,
            order_id: 5,
            direction: false,
            integrator: "0xI".to_string(),
            self_match_behavior: 2,
            size: 8,
        })
    );
}

#[test]
fn decodes_a_swap_order() {
    let payload = r#"{"txn_version":1,"event_idx":2,"time":"2023-08-01T12:00:00Z","market_id":3,"order_id":5,"direction":true,"signing_account":"0xS","integrator":"0xI","min_base":1,"max_base":2,"min_quote":3,"max_quote":4,"limit_price":9}"#;
    assert_eq!(
        PlaceSwapOrderNotif::decode(payload),
        Ok(PlaceSwapOrderNotif {
            txn_version: 1,
            event_idx: 2,
            time: "2023-08-01T12:00:00Z".to_string(),
            market_id: 3,
            order_id: 5,
            direction: true,
            signing_account: "0xS".to_string(),
            integrator: "0xI".to_string(),
            min_base: 1,
            max_base: 2,
            min_quote: 3,
            max_quote: 4,
            limit_price: 9,
        })
    );
}

#[test]
fn decodes_a_changed_order_size() {
    let payload = r#"{"txn_version":1,"event_idx":2,"time":"2023-08-01T12:00:00Z","market_id":3,"user":"0xU","custodian_id":4,"order_id":5,"side":false,"new_size":17}"#;
    assert_eq!(
        ChangeOrderSizeNotif::decode(payload),
        Ok(ChangeOrderSizeNotif {
            txn_version: 1,
            event_idx: 2,
            time: "2023-08-01T12:00:00Z".to_string(),
            market_id: 3,
            user: "0xU".to_string(),
            custodian_id: 4,
            order_id: 5,
            side: false,
            new_size: 17,
        })
    );
}

#[test]
fn decode_by_kind_gives_an_event_of_that_kind() {
    let event = ChangeEvent::decode(EventKind::CancelOrder, CANCEL).unwrap();
    assert_eq!(event.kind(), EventKind::CancelOrder);
    assert_eq!(event, ChangeEvent::CancelOrder(CancelOrderNotif::decode(CANCEL).unwrap()));
    let fill = ChangeEvent::decode(EventKind::Fill, FILL).unwrap();
    assert_eq!(fill.kind(), EventKind::Fill);
}

#[test]
fn a_payload_of_another_kind_is_refused() {
    assert_eq!(ChangeEvent::decode(EventKind::Fill, CANCEL), Err(DecodeError::Field("emit_address")));
    assert_eq!(ChangeEvent::decode(EventKind::CancelOrder, FILL), Err(DecodeError::Field("user")));
}

#[test]
fn fill_without_sequence_number_is_a_decode_error() {
    assert_eq!(
        FillNotif::decode(FILL_WITHOUT_SEQUENCE_NUMBER),
        Err(DecodeError::Field("sequence_number_for_trade"))
    );
    assert_eq!(
        ChangeEvent::decode(EventKind::Fill, FILL_WITHOUT_SEQUENCE_NUMBER),
        Err(DecodeError::Field("sequence_number_for_trade"))
    );
}

#[test]
fn the_first_absent_field_is_named() {
    assert_eq!(CancelOrderNotif::decode("{}"), Err(DecodeError::Field("txn_version")));
    assert_eq!(
        CancelOrderNotif::decode(r#"{"txn_version":1,"event_idx":2,"market_id":7}"#),
        Err(DecodeError::Field("time"))
    );
}

#[test]
fn what_is_not_json_is_malformed() {
    assert_eq!(CancelOrderNotif::decode(""), Err(DecodeError::Malformed));
    assert_eq!(CancelOrderNotif::decode("{"), Err(DecodeError::Malformed));
    assert_eq!(CancelOrderNotif::decode("not json"), Err(DecodeError::Malformed));
    assert_eq!(CancelOrderNotif::decode(&CANCEL[..CANCEL.len() - 1]), Err(DecodeError::Malformed));
    assert!(parse_payload("[1,2").is_err());
}

#[test]
fn a_document_that_is_no_object_has_no_fields() {
    assert_eq!(CancelOrderNotif::decode("[]"), Err(DecodeError::Field("txn_version")));
    assert_eq!(CancelOrderNotif::decode("7"), Err(DecodeError::Field("txn_version")));
    assert_eq!(CancelOrderNotif::decode("null"), Err(DecodeError::Field("txn_version")));
}

#[test]
fn a_field_of_the_wrong_type_is_refused() {
    let text_for_number = CANCEL.replace(r#""market_id":7"#, r#""market_id":"7""#);
    assert_eq!(CancelOrderNotif::decode(&text_for_number), Err(DecodeError::Field("market_id")));
    let number_for_text = CANCEL.replace(r#""user":"0xAA""#, r#""user":5"#);
    assert_eq!(CancelOrderNotif::decode(&number_for_text), Err(DecodeError::Field("user")));
    let null_field = CANCEL.replace(r#""order_id":55"#, r#""order_id":null"#);
    assert_eq!(CancelOrderNotif::decode(&null_field), Err(DecodeError::Field("order_id")));
    let text_for_flag = FILL.replace(r#""maker_side":false"#, r#""maker_side":"false""#);
    assert_eq!(FillNotif::decode(&text_for_flag), Err(DecodeError::Field("maker_side")));
    let nested = CANCEL.replace(r#""user":"0xAA""#, r#""user":{"address":"0xAA"}"#);
    assert_eq!(CancelOrderNotif::decode(&nested), Err(DecodeError::Field("user")));
}

#[test]
fn a_number_that_is_no_unsigned_integer_is_refused() {
    for bad in ["-1", "1.5", "1.0", "1e3", "-0", "340282366920938463463374607431768211456"] {
        let payload = CANCEL.replace(r#""market_id":7"#, &format!(r#""market_id":{}"#, bad));
        assert_eq!(CancelOrderNotif::decode(&payload), Err(DecodeError::Field("market_id")));
    }
}

#[test]
fn a_short_field_takes_sixteen_bits() {
    let low = CANCEL.replace(r#""reason":3"#, r#""reason":-32768"#);
    assert_eq!(CancelOrderNotif::decode(&low).unwrap().reason, i16::MIN);
    let high = CANCEL.replace(r#""reason":3"#, r#""reason":32767"#);
    assert_eq!(CancelOrderNotif::decode(&high).unwrap().reason, i16::MAX);
    let over = CANCEL.replace(r#""reason":3"#, r#""reason":32768"#);
    assert_eq!(CancelOrderNotif::decode(&over), Err(DecodeError::Field("reason")));
}

#[test]
fn identifiers_keep_all_128_bits() {
    let payload = CANCEL.replace(r#""market_id":7"#, r#""market_id":340282366920938463463374607431768211455"#);
    assert_eq!(CancelOrderNotif::decode(&payload).unwrap().market_id, u128::MAX);
    let beyond_64 = CANCEL.replace(r#""order_id":55"#, r#""order_id":18446744073709551617"#);
    assert_eq!(CancelOrderNotif::decode(&beyond_64).unwrap().order_id, 18446744073709551617);
}

#[test]
fn members_that_the_shape_does_not_name_are_ignored() {
    let payload = CANCEL.replace(r#""reason":3"#, r#""reason":3,"note":"x","extra":[1,2,{"a":null}]"#);
    assert_eq!(CancelOrderNotif::decode(&payload), CancelOrderNotif::decode(CANCEL));
}

#[test]
fn the_order_of_members_and_white_space_do_not_matter() {
    let payload = r#" { "reason" : 3, "order_id" : 55, "custodian_id" : 0, "user" : "0xAA",
        "market_id" : 7, "time" : "2023-08-01T12:00:00Z", "event_idx" : 2, "txn_version" : 11 } "#;
    assert_eq!(CancelOrderNotif::decode(payload), CancelOrderNotif::decode(CANCEL));
}

#[test]
fn escapes_in_strings_are_resolved() {
    let payload = CANCEL.replace(r#""user":"0xAA""#, r#""user":"a\"b\\cA\n""#);
    assert_eq!(CancelOrderNotif::decode(&payload).unwrap().user, "a\"b\\cA\n");
}

#[test]
fn time_is_brought_to_utc() {
    let offset = CANCEL.replace("2023-08-01T12:00:00Z", "2023-08-01T14:30:00+02:30");
    assert_eq!(CancelOrderNotif::decode(&offset).unwrap().time, "2023-08-01T12:00:00Z");
    let micros = CANCEL.replace("2023-08-01T12:00:00Z", "2023-08-01T12:00:00.123456+00:00");
    assert_eq!(CancelOrderNotif::decode(&micros).unwrap().time, "2023-08-01T12:00:00.123456Z");
    let nanos = CANCEL.replace("2023-08-01T12:00:00Z", "2023-08-01 12:00:00.000000001Z");
    assert_eq!(CancelOrderNotif::decode(&nanos).unwrap().time, "2023-08-01T12:00:00.000000001Z");
}

#[test]
fn what_is_no_time_is_refused() {
    for bad in ["yesterday", "2023-08-01", "2023-13-01T00:00:00Z", ""] {
        let payload = CANCEL.replace("2023-08-01T12:00:00Z", bad);
        assert_eq!(CancelOrderNotif::decode(&payload), Err(DecodeError::Field("time")));
    }
    let number = CANCEL.replace(r#""time":"2023-08-01T12:00:00Z""#, r#""time":1690891200"#);
    assert_eq!(CancelOrderNotif::decode(&number), Err(DecodeError::Field("time")));
}

#[test]
fn from_document_reads_a_parsed_value() {
    let doc = parse_payload(CANCEL).unwrap();
    assert_eq!(CancelOrderNotif::from_document(&doc), CancelOrderNotif::decode(CANCEL));
    assert_eq!(
        ChangeEvent::from_document(EventKind::CancelOrder, &doc),
        ChangeEvent::decode(EventKind::CancelOrder, CANCEL)
    );
    let built: serde_json::Value = serde_json::from_str(FILL_WITHOUT_SEQUENCE_NUMBER).unwrap();
    assert_eq!(FillNotif::from_document(&built), Err(DecodeError::Field("sequence_number_for_trade")));
}
