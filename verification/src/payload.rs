//! The published form of an event: a JSON object with every field of the
//! record under its own name, numbers as plain decimal digits.
//!
//! Strings are quoted by `serde_json`; the framing is written here.

use vstd::prelude::*;
use vstd::string::StringExecFns;
use crate::decimal::{decimal, push_decimal, push_signed, signed_decimal};
use crate::event::{
    CancelOrderNotif, ChangeEvent, ChangeOrderSizeNotif, FillNotif, PlaceLimitOrderNotif,
    PlaceMarketOrderNotif, PlaceSwapOrderNotif,
};
use crate::json::{json_quoted, quote};

verus! {

/// The JSON notation of a boolean.
pub open spec fn flag_text(b: bool) -> Seq<char> {
    if b {
        "true"@
    } else {
        "false"@
    }
}

/// Appends a label and a number in decimal notation.
pub(crate) fn put_number(out: &mut String, label: &str, n: u128)
    ensures
        final(out)@ == old(out)@ + label@ + decimal(n as nat),
{
    out.append(label);
    push_decimal(out, n);
}

/// Appends a label and a signed number in decimal notation.
pub(crate) fn put_short(out: &mut String, label: &str, n: i16)
    ensures
        final(out)@ == old(out)@ + label@ + signed_decimal(n as int),
{
    out.append(label);
    push_signed(out, n as i64);
}

/// Appends a label and `true` or `false`.
pub(crate) fn put_flag(out: &mut String, label: &str, b: bool)
    ensures
        final(out)@ == old(out)@ + label@ + flag_text(b),
{
    out.append(label);
    if b {
        out.append("true");
    } else {
        out.append("false");
    }
}

/// Appends a label and a quoted string.
pub(crate) fn put_text(out: &mut String, label: &str, text: &str)
    ensures
        final(out)@ == old(out)@ + label@ + json_quoted(text@),
{
    out.append(label);
    let literal = quote(text);
    out.append(literal.as_str());
}

impl PlaceLimitOrderNotif {
    /// The JSON object that is published for a placed limit order: every field by its
    /// name, in the order of the record.
    pub open spec fn payload_spec(self) -> Seq<char> {
        "{"@
            + "\"txn_version\":"@
            + decimal(self.txn_version as nat)
            + ",\"event_idx\":"@
            + decimal(self.event_idx as nat)
            + ",\"time\":"@
            + json_quoted(self.time@)
            + ",\"market_id\":"@
            + decimal(self.market_id as nat)
            + ",\"user\":"@
            + json_quoted(self.user@)
            + ",\"custodian_id\":"@
            + decimal(self.custodian_id as nat)
            + ",\"order_id\":"@
            + decimal(self.order_id as nat)
            + ",\"side\":"@
            + flag_text(self.side)
            + ",\"integrator\":"@
            + json_quoted(self.integrator@)
            + ",\"initial_size\":"@
            + decimal(self.initial_size as nat)
            + ",\"price\":"@
            + decimal(self.price as nat)
            + ",\"restriction\":"@
            + signed_decimal(self.restriction as int)
            + ",\"self_match_behavior\":"@
            + signed_decimal(self.self_match_behavior as int)
            + ",\"size\":"@
            + decimal(self.size as nat)
            + "}"@
    }

    /// Writes the published JSON object.
    pub fn payload(&self) -> (p: String)
        ensures
            p@ == self.payload_spec(),
    {
        let mut p = String::from_str("{");
        put_number(&mut p, "\"txn_version\":", self.txn_version);
        put_number(&mut p, ",\"event_idx\":", self.event_idx);
        put_text(&mut p, ",\"time\":", self.time.as_str());
        put_number(&mut p, ",\"market_id\":", self.market_id);
        put_text(&mut p, ",\"user\":", self.user.as_str());
        put_number(&mut p, ",\"custodian_id\":", self.custodian_id);
        put_number(&mut p, ",\"order_id\":", self.order_id);
        put_flag(&mut p, ",\"side\":", self.side);
        put_text(&mut p, ",\"integrator\":", self.integrator.as_str());
        put_number(&mut p, ",\"initial_size\":", self.initial_size);
        put_number(&mut p, ",\"price\":", self.price);
        put_short(&mut p, ",\"restriction\":", self.restriction);
        put_short(&mut p, ",\"self_match_behavior\":", self.self_match_behavior);
        put_number(&mut p, ",\"size\":", self.size);
        p.append("}");
        p
    }
}

impl PlaceMarketOrderNotif {
    /// The JSON object that is published for a placed market order: every field by its
    /// name, in the order of the record.
    pub open spec fn payload_spec(self) -> Seq<char> {
        "{"@
            + "\"txn_version\":"@
            + decimal(self.txn_version as nat)
            + ",\"event_idx\":"@
            + decimal(self.event_idx as nat)
            + ",\"time\":"@
            + json_quoted(self.time@)
            + ",\"market_id\":"@
            + decimal(self.market_id as nat)
            + ",\"user\":"@
            + json_quoted(self.user@)
            + ",\"custodian_id\":"@
            + decimal(self.custodian_id as nat)
            + ",\"order_id\":"@
            + decimal(self.order_id as nat)
            + ",\"direction\":"@
            + flag_text(self.direction)
            + ",\"integrator\":"@
            + json_quoted(self.integrator@)
            + ",\"self_match_behavior\":"@
            + signed_decimal(self.self_match_behavior as int)
            + ",\"size\":"@
            + decimal(self.size as nat)
            + "}"@
    }

    /// Writes the published JSON object.
    pub fn payload(&self) -> (p: String)
        ensures
            p@ == self.payload_spec(),
    {
        let mut p = String::from_str("{");
        put_number(&mut p, "\"txn_version\":", self.txn_version);
        put_number(&mut p, ",\"event_idx\":", self.event_idx);
        put_text(&mut p, ",\"time\":", self.time.as_str());
        put_number(&mut p, ",\"market_id\":", self.market_id);
        put_text(&mut p, ",\"user\":", self.user.as_str());
        put_number(&mut p, ",\"custodian_id\":", self.custodian_id);
        put_number(&mut p, ",\"order_id\":", self.order_id);
        put_flag(&mut p, ",\"direction\":", self.direction);
        put_text(&mut p, ",\"integrator\":", self.integrator.as_str());
        put_short(&mut p, ",\"self_match_behavior\":", self.self_match_behavior);
        put_number(&mut p, ",\"size\":", self.size);
        p.append("}");
        p
    }
}

impl PlaceSwapOrderNotif {
    /// The JSON object that is published for a placed swap order: every field by its
    /// name, in the order of the record.
    pub open spec fn payload_spec(self) -> Seq<char> {
        "{"@
            + "\"txn_version\":"@
            + decimal(self.txn_version as nat)
            + ",\"event_idx\":"@
            + decimal(self.event_idx as nat)
            + ",\"time\":"@
            + json_quoted(self.time@)
            + ",\"market_id\":"@
            + decimal(self.market_id as nat)
            + ",\"order_id\":"@
            + decimal(self.order_id as nat)
            + ",\"direction\":"@
            + flag_text(self.direction)
            + ",\"signing_account\":"@
            + json_quoted(self.signing_account@)
            + ",\"integrator\":"@
            + json_quoted(self.integrator@)
            + ",\"min_base\":"@
            + decimal(self.min_base as nat)
            + ",\"max_base\":"@
            + decimal(self.max_base as nat)
            + ",\"min_quote\":"@
            + decimal(self.min_quote as nat)
            + ",\"max_quote\":"@
            + decimal(self.max_quote as nat)
            + ",\"limit_price\":"@
            + decimal(self.limit_price as nat)
            + "}"@
    }

    /// Writes the published JSON object.
    pub fn payload(&self) -> (p: String)
        ensures
            p@ == self.payload_spec(),
    {
        let mut p = String::from_str("{");
        put_number(&mut p, "\"txn_version\":", self.txn_version);
        put_number(&mut p, ",\"event_idx\":", self.event_idx);
        put_text(&mut p, ",\"time\":", self.time.as_str());
        put_number(&mut p, ",\"market_id\":", self.market_id);
        put_number(&mut p, ",\"order_id\":", self.order_id);
        put_flag(&mut p, ",\"direction\":", self.direction);
        put_text(&mut p, ",\"signing_account\":", self.signing_account.as_str());
        put_text(&mut p, ",\"integrator\":", self.integrator.as_str());
        put_number(&mut p, ",\"min_base\":", self.min_base);
        put_number(&mut p, ",\"max_base\":", self.max_base);
        put_number(&mut p, ",\"min_quote\":", self.min_quote);
        put_number(&mut p, ",\"max_quote\":", self.max_quote);
        put_number(&mut p, ",\"limit_price\":", self.limit_price);
        p.append("}");
        p
    }
}

impl ChangeOrderSizeNotif {
    /// The JSON object that is published for a changed order size: every field by its
    /// name, in the order of the record.
    pub open spec fn payload_spec(self) -> Seq<char> {
        "{"@
            + "\"txn_version\":"@
            + decimal(self.txn_version as nat)
            + ",\"event_idx\":"@
            + decimal(self.event_idx as nat)
            + ",\"time\":"@
            + json_quoted(self.time@)
            + ",\"market_id\":"@
            + decimal(self.market_id as nat)
            + ",\"user\":"@
            + json_quoted(self.user@)
            + ",\"custodian_id\":"@
            + decimal(self.custodian_id as nat)
            + ",\"order_id\":"@
            + decimal(self.order_id as nat)
            + ",\"side\":"@
            + flag_text(self.side)
            + ",\"new_size\":"@
            + decimal(self.new_size as nat)
            + "}"@
    }

    /// Writes the published JSON object.
    pub fn payload(&self) -> (p: String)
        ensures
            p@ == self.payload_spec(),
    {
        let mut p = String::from_str("{");
        put_number(&mut p, "\"txn_version\":", self.txn_version);
        put_number(&mut p, ",\"event_idx\":", self.event_idx);
        put_text(&mut p, ",\"time\":", self.time.as_str());
        put_number(&mut p, ",\"market_id\":", self.market_id);
        put_text(&mut p, ",\"user\":", self.user.as_str());
        put_number(&mut p, ",\"custodian_id\":", self.custodian_id);
        put_number(&mut p, ",\"order_id\":", self.order_id);
        put_flag(&mut p, ",\"side\":", self.side);
        put_number(&mut p, ",\"new_size\":", self.new_size);
        p.append("}");
        p
    }
}

impl CancelOrderNotif {
    /// The JSON object that is published for a canceled order: every field by its
    /// name, in the order of the record.
    pub open spec fn payload_spec(self) -> Seq<char> {
        "{"@
            + "\"txn_version\":"@
            + decimal(self.txn_version as nat)
            + ",\"event_idx\":"@
            + decimal(self.event_idx as nat)
            + ",\"time\":"@
            + json_quoted(self.time@)
            + ",\"market_id\":"@
            + decimal(self.market_id as nat)
            + ",\"user\":"@
            + json_quoted(self.user@)
            + ",\"custodian_id\":"@
            + decimal(self.custodian_id as nat)
            + ",\"order_id\":"@
            + decimal(self.order_id as nat)
            + ",\"reason\":"@
            + signed_decimal(self.reason as int)
            + "}"@
    }

    /// Writes the published JSON object.
    pub fn payload(&self) -> (p: String)
        ensures
            p@ == self.payload_spec(),
    {
        let mut p = String::from_str("{");
        put_number(&mut p, "\"txn_version\":", self.txn_version);
        put_number(&mut p, ",\"event_idx\":", self.event_idx);
        put_text(&mut p, ",\"time\":", self.time.as_str());
        put_number(&mut p, ",\"market_id\":", self.market_id);
        put_text(&mut p, ",\"user\":", self.user.as_str());
        put_number(&mut p, ",\"custodian_id\":", self.custodian_id);
        put_number(&mut p, ",\"order_id\":", self.order_id);
        put_short(&mut p, ",\"reason\":", self.reason);
        p.append("}");
        p
    }
}

impl FillNotif {
    /// The JSON object that is published for a fill: every field by its
    /// name, in the order of the record.
    pub open spec fn payload_spec(self) -> Seq<char> {
        "{"@
            + "\"txn_version\":"@
            + decimal(self.txn_version as nat)
            + ",\"event_idx\":"@
            + decimal(self.event_idx as nat)
            + ",\"emit_address\":"@
            + json_quoted(self.emit_address@)
            + ",\"time\":"@
            + json_quoted(self.time@)
            + ",\"maker_address\":"@
            + json_quoted(self.maker_address@)
            + ",\"maker_custodian_id\":"@
            + decimal(self.maker_custodian_id as nat)
            + ",\"maker_order_id\":"@
            + decimal(self.maker_order_id as nat)
            + ",\"maker_side\":"@
            + flag_text(self.maker_side)
            + ",\"market_id\":"@
            + decimal(self.market_id as nat)
            + ",\"price\":"@
            + decimal(self.price as nat)
            + ",\"sequence_number_for_trade\":"@
            + decimal(self.sequence_number_for_trade as nat)
            + ",\"size\":"@
            + decimal(self.size as nat)
            + ",\"taker_address\":"@
            + json_quoted(self.taker_address@)
            + ",\"taker_custodian_id\":"@
            + decimal(self.taker_custodian_id as nat)
            + ",\"taker_order_id\":"@
            + decimal(self.taker_order_id as nat)
            + ",\"taker_quote_fees_paid\":"@
            + decimal(self.taker_quote_fees_paid as nat)
            + "}"@
    }

    /// Writes the published JSON object.
    pub fn payload(&self) -> (p: String)
        ensures
            p@ == self.payload_spec(),
    {
        let mut p = String::from_str("{");
        put_number(&mut p, "\"txn_version\":", self.txn_version);
        put_number(&mut p, ",\"event_idx\":", self.event_idx);
        put_text(&mut p, ",\"emit_address\":", self.emit_address.as_str());
        put_text(&mut p, ",\"time\":", self.time.as_str());
        put_text(&mut p, ",\"maker_address\":", self.maker_address.as_str());
        put_number(&mut p, ",\"maker_custodian_id\":", self.maker_custodian_id);
        put_number(&mut p, ",\"maker_order_id\":", self.maker_order_id);
        put_flag(&mut p, ",\"maker_side\":", self.maker_side);
        put_number(&mut p, ",\"market_id\":", self.market_id);
        put_number(&mut p, ",\"price\":", self.price);
        put_number(&mut p, ",\"sequence_number_for_trade\":", self.sequence_number_for_trade);
        put_number(&mut p, ",\"size\":", self.size);
        put_text(&mut p, ",\"taker_address\":", self.taker_address.as_str());
        put_number(&mut p, ",\"taker_custodian_id\":", self.taker_custodian_id);
        put_number(&mut p, ",\"taker_order_id\":", self.taker_order_id);
        put_number(&mut p, ",\"taker_quote_fees_paid\":", self.taker_quote_fees_paid);
        p.append("}");
        p
    }
}

impl ChangeEvent {
    /// The JSON object that is published for the event.
    pub open spec fn payload_spec(self) -> Seq<char> {
        match self {
            ChangeEvent::PlaceLimitOrder(e) => e.payload_spec(),
            ChangeEvent::PlaceMarketOrder(e) => e.payload_spec(),
            ChangeEvent::PlaceSwapOrder(e) => e.payload_spec(),
            ChangeEvent::ChangeOrderSize(e) => e.payload_spec(),
            ChangeEvent::CancelOrder(e) => e.payload_spec(),
            ChangeEvent::Fill(e) => e.payload_spec(),
        }
    }

    /// Writes the published JSON object.
    pub fn payload(&self) -> (p: String)
        ensures
            p@ == self.payload_spec(),
    {
        match self {
            ChangeEvent::PlaceLimitOrder(e) => e.payload(),
            ChangeEvent::PlaceMarketOrder(e) => e.payload(),
            ChangeEvent::PlaceSwapOrder(e) => e.payload(),
            ChangeEvent::ChangeOrderSize(e) => e.payload(),
            ChangeEvent::CancelOrder(e) => e.payload(),
            ChangeEvent::Fill(e) => e.payload(),
        }
    }
}

} // verus!
