//! The change events that the database announces, one record type per
//! notification channel.
//!
//! Identifiers and quantities are 128-bit integers throughout. A timestamp is
//! held as its RFC 3339 text in UTC, the form in which it is published.

use vstd::prelude::*;

verus! {

/// A limit order was placed.
#[derive(Clone, Debug, PartialEq, Eq)]
pub struct PlaceLimitOrderNotif {
    pub txn_version: u128,
    pub event_idx: u128,
    pub time: String,
    pub market_id: u128,
    pub user: String,
    pub custodian_id: u128,
    pub order_id: u128,
    pub side: bool,
    pub integrator: String,
    pub initial_size: u128,
    pub price: u128,
    pub restriction: i16,
    pub self_match_behavior: i16,
    pub size: u128,
}

/// A market order was placed.
#[derive(Clone, Debug, PartialEq, Eq)]
pub struct PlaceMarketOrderNotif {
    pub txn_version: u128,
    pub event_idx: u128,
    pub time: String,
    pub market_id: u128,
    pub user: String,
    pub custodian_id: u128,
    pub order_id: u128,
    pub direction: bool,
    pub integrator: String,
    pub self_match_behavior: i16,
    pub size: u128,
}

/// A swap order was placed.
#[derive(Clone, Debug, PartialEq, Eq)]
pub struct PlaceSwapOrderNotif {
    pub txn_version: u128,
    pub event_idx: u128,
    pub time: String,
    pub market_id: u128,
    pub order_id: u128,
    pub direction: bool,
    pub signing_account: String,
    pub integrator: String,
    pub min_base: u128,
    pub max_base: u128,
    pub min_quote: u128,
    pub max_quote: u128,
    pub limit_price: u128,
}

/// The size of a resting order was changed.
#[derive(Clone, Debug, PartialEq, Eq)]
pub struct ChangeOrderSizeNotif {
    pub txn_version: u128,
    pub event_idx: u128,
    pub time: String,
    pub market_id: u128,
    pub user: String,
    pub custodian_id: u128,
    pub order_id: u128,
    pub side: bool,
    pub new_size: u128,
}

/// An order was canceled.
#[derive(Clone, Debug, PartialEq, Eq)]
pub struct CancelOrderNotif {
    pub txn_version: u128,
    pub event_idx: u128,
    pub time: String,
    pub market_id: u128,
    pub user: String,
    pub custodian_id: u128,
    pub order_id: u128,
    pub reason: i16,
}

/// A trade was executed. Each trade is announced twice, once from the maker's
/// side and once from the taker's; both records carry the same [`FillKey`].
#[derive(Clone, Debug, PartialEq, Eq)]
pub struct FillNotif {
    pub txn_version: u128,
    pub event_idx: u128,
    pub emit_address: String,
    pub time: String,
    pub maker_address: String,
    pub maker_custodian_id: u128,
    pub maker_order_id: u128,
    pub maker_side: bool,
    pub market_id: u128,
    pub price: u128,
    pub sequence_number_for_trade: u128,
    pub size: u128,
    pub taker_address: String,
    pub taker_custodian_id: u128,
    pub taker_order_id: u128,
    pub taker_quote_fees_paid: u128,
}

/// What identifies one trade, whichever side's record carries it.
#[derive(Clone, Copy, Debug, PartialEq, Eq, Structural)]
pub struct FillKey {
    pub market_id: u128,
    pub taker_order_id: u128,
    pub sequence_number_for_trade: u128,
}

impl FillNotif {
    /// The key of the trade that this record describes.
    pub open spec fn key_spec(self) -> FillKey {
        FillKey {
            market_id: self.market_id,
            taker_order_id: self.taker_order_id,
            sequence_number_for_trade: self.sequence_number_for_trade,
        }
    }

    /// The key of the trade that this record describes.
    pub fn key(&self) -> (k: FillKey)
        ensures
            k == self.key_spec(),
    {
        FillKey {
            market_id: self.market_id,
            taker_order_id: self.taker_order_id,
            sequence_number_for_trade: self.sequence_number_for_trade,
        }
    }
}

/// The kinds of change event, one per notification channel.
#[derive(Clone, Copy, Debug, PartialEq, Eq, Structural)]
pub enum EventKind {
    PlaceLimitOrder,
    PlaceMarketOrder,
    PlaceSwapOrder,
    ChangeOrderSize,
    CancelOrder,
    Fill,
}

/// One decoded change event.
#[derive(Clone, Debug, PartialEq, Eq)]
pub enum ChangeEvent {
    PlaceLimitOrder(PlaceLimitOrderNotif),
    PlaceMarketOrder(PlaceMarketOrderNotif),
    PlaceSwapOrder(PlaceSwapOrderNotif),
    ChangeOrderSize(ChangeOrderSizeNotif),
    CancelOrder(CancelOrderNotif),
    Fill(FillNotif),
}

impl ChangeEvent {
    /// The kind of the event.
    pub open spec fn kind_spec(self) -> EventKind {
        match self {
            ChangeEvent::PlaceLimitOrder(_) => EventKind::PlaceLimitOrder,
            ChangeEvent::PlaceMarketOrder(_) => EventKind::PlaceMarketOrder,
            ChangeEvent::PlaceSwapOrder(_) => EventKind::PlaceSwapOrder,
            ChangeEvent::ChangeOrderSize(_) => EventKind::ChangeOrderSize,
            ChangeEvent::CancelOrder(_) => EventKind::CancelOrder,
            ChangeEvent::Fill(_) => EventKind::Fill,
        }
    }

    /// The kind of the event.
    pub fn kind(&self) -> (k: EventKind)
        ensures
            k == self.kind_spec(),
    {
        match self {
            ChangeEvent::PlaceLimitOrder(_) => EventKind::PlaceLimitOrder,
            ChangeEvent::PlaceMarketOrder(_) => EventKind::PlaceMarketOrder,
            ChangeEvent::PlaceSwapOrder(_) => EventKind::PlaceSwapOrder,
            ChangeEvent::ChangeOrderSize(_) => EventKind::ChangeOrderSize,
            ChangeEvent::CancelOrder(_) => EventKind::CancelOrder,
            ChangeEvent::Fill(_) => EventKind::Fill,
        }
    }
}

impl EventKind {
    /// The name of the notification channel, which is also the first segment
    /// of every topic of this kind.
    pub open spec fn channel_spec(self) -> Seq<char> {
        match self {
            EventKind::PlaceLimitOrder => "place_limit_order"@,
            EventKind::PlaceMarketOrder => "place_market_order"@,
            EventKind::PlaceSwapOrder => "place_swap_order"@,
            EventKind::ChangeOrderSize => "change_order_size"@,
            EventKind::CancelOrder => "cancel_order"@,
            EventKind::Fill => "fill"@,
        }
    }

    /// The name of the notification channel of this kind.
    pub fn channel(&self) -> (s: &'static str)
        ensures
            s@ == self.channel_spec(),
    {
        match self {
            EventKind::PlaceLimitOrder => "place_limit_order",
            EventKind::PlaceMarketOrder => "place_market_order",
            EventKind::PlaceSwapOrder => "place_swap_order",
            EventKind::ChangeOrderSize => "change_order_size",
            EventKind::CancelOrder => "cancel_order",
            EventKind::Fill => "fill",
        }
    }

    /// The kind whose channel is named `channel`, if there is one.
    pub open spec fn of_channel_spec(channel: Seq<char>) -> Option<EventKind> {
        if channel == "place_limit_order"@ {
            Some(EventKind::PlaceLimitOrder)
        } else if channel == "place_market_order"@ {
            Some(EventKind::PlaceMarketOrder)
        } else if channel == "place_swap_order"@ {
            Some(EventKind::PlaceSwapOrder)
        } else if channel == "change_order_size"@ {
            Some(EventKind::ChangeOrderSize)
        } else if channel == "cancel_order"@ {
            Some(EventKind::CancelOrder)
        } else if channel == "fill"@ {
            Some(EventKind::Fill)
        } else {
            None
        }
    }

    /// Looks a channel name up. A name that belongs to no kind gives `None`:
    /// such a notification is not for this bridge.
    pub fn of_channel(channel: &str) -> (k: Option<EventKind>)
        ensures
            k == Self::of_channel_spec(channel@),
    {
        if str_eq(channel, "place_limit_order") {
            Some(EventKind::PlaceLimitOrder)
        } else if str_eq(channel, "place_market_order") {
            Some(EventKind::PlaceMarketOrder)
        } else if str_eq(channel, "place_swap_order") {
            Some(EventKind::PlaceSwapOrder)
        } else if str_eq(channel, "change_order_size") {
            Some(EventKind::ChangeOrderSize)
        } else if str_eq(channel, "cancel_order") {
            Some(EventKind::CancelOrder)
        } else if str_eq(channel, "fill") {
            Some(EventKind::Fill)
        } else {
            None
        }
    }
}

/// The six channels that the bridge listens on, in the order in which it
/// subscribes to them.
pub fn channels() -> (v: Vec<&'static str>)
    ensures
        v@.len() == 6,
        v@[0]@ == EventKind::PlaceLimitOrder.channel_spec(),
        v@[1]@ == EventKind::PlaceMarketOrder.channel_spec(),
        v@[2]@ == EventKind::PlaceSwapOrder.channel_spec(),
        v@[3]@ == EventKind::ChangeOrderSize.channel_spec(),
        v@[4]@ == EventKind::CancelOrder.channel_spec(),
        v@[5]@ == EventKind::Fill.channel_spec(),
{
    let mut v: Vec<&'static str> = Vec::new();
    v.push(EventKind::PlaceLimitOrder.channel());
    v.push(EventKind::PlaceMarketOrder.channel());
    v.push(EventKind::PlaceSwapOrder.channel());
    v.push(EventKind::ChangeOrderSize.channel());
    v.push(EventKind::CancelOrder.channel());
    v.push(EventKind::Fill.channel());
    v
}

/// Whether two texts hold the same characters.
pub fn str_eq(a: &str, b: &str) -> (r: bool)
    ensures
        r == (a@ == b@),
{
    let a_owned = a.to_owned();
    let b_owned = b.to_owned();
    a_owned == b_owned
}

/// A channel name belongs to the kind that it was looked up as, and every
/// kind is found under its own channel name.
pub proof fn lemma_channel_roundtrip(kind: EventKind)
    ensures
        EventKind::of_channel_spec(kind.channel_spec()) == Some(kind),
{
    reveal_strlit("place_limit_order");
    reveal_strlit("place_market_order");
    reveal_strlit("place_swap_order");
    reveal_strlit("change_order_size");
    reveal_strlit("cancel_order");
    reveal_strlit("fill");
    let p = "place_limit_order"@;
    let m = "place_market_order"@;
    let s = "place_swap_order"@;
    let c = "change_order_size"@;
    let x = "cancel_order"@;
    let f = "fill"@;
    assert(p.len() == 17 && m.len() == 18 && s.len() == 16 && c.len() == 17 && x.len() == 12
        && f.len() == 4);
    assert(p[0] == 'p' && c[0] == 'c');
}

} // verus!
