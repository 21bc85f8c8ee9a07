use mqtt_publisher::event::{
    CancelOrderNotif, ChangeEvent, ChangeOrderSizeNotif, EventKind, FillNotif,
    PlaceLimitOrderNotif, PlaceMarketOrderNotif, PlaceSwapOrderNotif,
};
use mqtt_publisher::event::{channels, str_eq};

fn time() -> String {
    String::from("2023-08-01T12:00:00Z")
}

fn limit_order(market_id: u128, user: &str, custodian_id: u128, integrator: &str) -> PlaceLimitOrderNotif {
    PlaceLimitOrderNotif {
        txn_version: 1,
        event_idx: 2,
        time: time(),
        market_id,
        user: user.to_string(),
        custodian_id,
        order_id: 3,
        side: true,
        integrator: integrator.to_string(),
        initial_size: 10,
        price: 100,
        restriction: 0,
        self_match_behavior: 0,
        size: 10,
    }
}

fn cancel_order(market_id: u128, user: &str, custodian_id: u128) -> CancelOrderNotif {
    CancelOrderNotif {
        txn_version: 1,
        event_idx: 2,
        time: time(),
        market_id,
        user: user.to_string(),
        custodian_id,
        order_id: 3,
        reason: 1,
    }
}

fn fill() -> FillNotif {
    FillNotif {
        txn_version: 1,
        event_idx: 2,
        emit_address: "0xE".to_string(),
        time: time(),
        maker_address: "0xM".to_string(),
        maker_custodian_id: 4,
        maker_order_id: 5,
        maker_side: false,
        market_id: 6,
        price: 7,
        sequence_number_for_trade: 8,
        size: 9,
        taker_address: "0xT".to_string(),
        taker_custodian_id: 10,
        taker_order_id: 11,
        taker_quote_fees_paid: 12,
    }
}

#[test]
fn cancel_order_topic_has_market_user_custodian() {
    let e = cancel_order(7, "0xAA", 0);
    assert_eq!(e.topic(), "cancel_order/7/0xAA/0");
    assert_eq!(ChangeEvent::CancelOrder(e).topics(), vec!["cancel_order/7/0xAA/0".to_string()]);
}

#[test]
fn limit_order_topic_has_market_user_custodian_integrator() {
    let e = limit_order(3, "0xU", 9, "0xI");
    assert_eq!(e.topic(), "place_limit_order/3/0xU/9/0xI");
    assert_eq!(ChangeEvent::PlaceLimitOrder(e).topics(), vec!["place_limit_order/3/0xU/9/0xI".to_string()]);
}

#[test]
fn market_order_topic_has_market_user_custodian_integrator() {
    let e = PlaceMarketOrderNotif {
        txn_version: 1,
        event_idx: 2,
        time: time(),
        market_id: 12,
        user: "0xU".to_string(),
        custodian_id: 0,
        order_id: 3,
        direction: false,
        integrator: "0xI".to_string(),
        self_match_behavior: 2,
        size: 5,
    };
    assert_eq!(e.topic(), "place_market_order/12/0xU/0/0xI");
    assert_eq!(ChangeEvent::PlaceMarketOrder(e).topics().len(), 1);
}

#[test]
fn swap_order_topic_has_market_integrator_signing_account() {
    let e = PlaceSwapOrderNotif {
        txn_version: 1,
        event_idx: 2,
        time: time(),
        market_id: 5,
        order_id: 3,
        direction: true,
        signing_account: "0xS".to_string(),
        integrator: "0xI".to_string(),
        min_base: 1,
        max_base: 2,
        min_quote: 3,
        max_quote: 4,
        limit_price: 5,
    };
    assert_eq!(e.topic(), "place_swap_order/5/0xI/0xS");
    assert_eq!(ChangeEvent::PlaceSwapOrder(e).topics(), vec!["place_swap_order/5/0xI/0xS".to_string()]);
}

#[test]
fn change_order_size_topic_has_market_user_custodian() {
    let e = ChangeOrderSizeNotif {
        txn_version: 1,
        event_idx: 2,
        time: time(),
        market_id: 8,
        user: "0xU".to_string(),
        custodian_id: 77,
        order_id: 3,
        side: false,
        new_size: 1,
    };
    assert_eq!(e.topic(), "change_order_size/8/0xU/77");
    assert_eq!(ChangeEvent::ChangeOrderSize(e).topics(), vec!["change_order_size/8/0xU/77".to_string()]);
}

#[test]
fn fill_has_the_makers_topic_and_then_the_takers() {
    let f = fill();
    assert_eq!(f.maker_topic(), "fill/6/0xM/4");
    assert_eq!(f.taker_topic(), "fill/6/0xT/10");
    assert_eq!(
        ChangeEvent::Fill(f).topics(),
        vec!["fill/6/0xM/4".to_string(), "fill/6/0xT/10".to_string()]
    );
}

#[test]
fn topic_carries_all_128_bits_of_an_identifier() {
    let e = cancel_order(u128::MAX, "0xAA", u128::MAX - 1);
    assert_eq!(
        e.topic(),
        "cancel_order/340282366920938463463374607431768211455/0xAA/340282366920938463463374607431768211454"
    );
}

#[test]
fn equal_routing_fields_give_equal_topics() {
    let mut a = limit_order(3, "0xU", 9, "0xI");
    let mut b = limit_order(3, "0xU", 9, "0xI");
    a.price = 1;
    b.price = 2;
    a.order_id = 10;
    b.order_id = 20;
    assert_eq!(a.topic(), b.topic());
}

#[test]
fn a_differing_routing_field_gives_another_topic() {
    let base = limit_order(3, "0xU", 9, "0xI");
    assert_ne!(base.topic(), limit_order(4, "0xU", 9, "0xI").topic());
    assert_ne!(base.topic(), limit_order(3, "0xV", 9, "0xI").topic());
    assert_ne!(base.topic(), limit_order(3, "0xU", 8, "0xI").topic());
    assert_ne!(base.topic(), limit_order(3, "0xU", 9, "0xJ").topic());
    assert_ne!(cancel_order(1, "a/1", 2).topic(), cancel_order(1, "a", 12).topic());
}

#[test]
fn a_separator_inside_a_user_can_make_two_topics_collide() {
    let a = limit_order(1, "a/1/b", 2, "c");
    let b = limit_order(1, "a", 1, "b/2/c");
    assert_eq!(a.topic(), b.topic());
}

#[test]
fn channel_names_and_kinds_correspond() {
    let kinds = [
        EventKind::PlaceLimitOrder,
        EventKind::PlaceMarketOrder,
        EventKind::PlaceSwapOrder,
        EventKind::ChangeOrderSize,
        EventKind::CancelOrder,
        EventKind::Fill,
    ];
    for kind in kinds {
        assert_eq!(EventKind::of_channel(kind.channel()), Some(kind));
    }
    assert_eq!(EventKind::of_channel("levels"), None);
    assert_eq!(EventKind::of_channel(""), None);
    assert_eq!(EventKind::of_channel("Fill"), None);
    assert_eq!(EventKind::Fill.channel(), "fill");
}

#[test]
fn the_bridge_listens_on_six_channels() {
    assert_eq!(
        channels(),
        vec![
            "place_limit_order",
            "place_market_order",
            "place_swap_order",
            "change_order_size",
            "cancel_order",
            "fill",
        ]
    );
}

#[test]
fn str_eq_compares_characters() {
    assert!(str_eq("fill", "fill"));
    assert!(!str_eq("fill", "fill "));
}

#[test]
fn kind_of_an_event() {
    assert_eq!(ChangeEvent::Fill(fill()).kind(), EventKind::Fill);
    assert_eq!(ChangeEvent::CancelOrder(cancel_order(1, "u", 2)).kind(), EventKind::CancelOrder);
}
