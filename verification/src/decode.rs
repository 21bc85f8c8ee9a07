//! The typed event decoder: from a notification's JSON payload to the event
//! record of its channel.
//!
//! A payload is decoded against the shape of its kind: a list of named
//! fields, each of one type. Members that the shape does not name are
//! ignored. Decoding fails on a payload that is not JSON, and on the first
//! field of the shape, in its order, that the payload lacks or holds with
//! another type.

use vstd::prelude::*;
use crate::decimal::{parse_decimal, parse_short};
use crate::event::{
    CancelOrderNotif, ChangeEvent, ChangeOrderSizeNotif, EventKind, FillNotif,
    PlaceLimitOrderNotif, PlaceMarketOrderNotif, PlaceSwapOrderNotif,
};
use crate::json::{
    as_flag, as_number, as_text, flag_at, member, members_of, parse_document, parsed_members,
    short_at, text_at, unsigned_at, Member,
};
use crate::time::{normalize_time, utc_rfc3339};

verus! {

/// Why a payload could not be decoded.
#[derive(Clone, Copy, Debug, PartialEq, Eq)]
pub enum DecodeError {
    /// The payload is not a JSON document.
    Malformed,
    /// The named field is missing from the payload or has the wrong type.
    Field(&'static str),
}

/// The types that a field of an event can have.
pub enum FieldKind {
    /// An unsigned integer of up to 128 bits.
    Unsigned,
    /// A signed integer of 16 bits.
    Short,
    /// A boolean.
    Flag,
    /// A string.
    Text,
    /// A string that holds a date and time.
    Time,
}

/// The member `name` as a timestamp: it is a string that holds a date and
/// time, given as RFC 3339 text in UTC.
pub open spec fn time_at(members: Map<Seq<char>, Member>, name: Seq<char>) -> Option<Seq<char>> {
    match text_at(members, name) {
        Some(t) => utc_rfc3339(t),
        None => None,
    }
}

/// Whether the document holds the field `name` with the type `kind`.
pub open spec fn field_present(
    members: Map<Seq<char>, Member>,
    name: Seq<char>,
    kind: FieldKind,
) -> bool {
    match kind {
        FieldKind::Unsigned => unsigned_at(members, name) is Some,
        FieldKind::Short => short_at(members, name) is Some,
        FieldKind::Flag => flag_at(members, name) is Some,
        FieldKind::Text => text_at(members, name) is Some,
        FieldKind::Time => time_at(members, name) is Some,
    }
}

/// The first field of `shape`, from position `from` on, that the document
/// does not hold; `None` where it holds them all.
pub open spec fn first_absent(
    members: Map<Seq<char>, Member>,
    shape: Seq<(Seq<char>, FieldKind)>,
    from: int,
) -> Option<Seq<char>>
    decreases shape.len() - from,
{
    if from < 0 || from >= shape.len() {
        None
    } else if !field_present(members, shape[from].0, shape[from].1) {
        Some(shape[from].0)
    } else {
        first_absent(members, shape, from + 1)
    }
}

/// What decoding a document against `shape` comes to: the error that names
/// the first absent field, or success.
pub open spec fn shape_outcome(
    members: Map<Seq<char>, Member>,
    shape: Seq<(Seq<char>, FieldKind)>,
    outcome: Option<DecodeError>,
) -> bool {
    match outcome {
        None => first_absent(members, shape, 0) is None,
        Some(DecodeError::Field(name)) => first_absent(members, shape, 0) == Some(name@),
        Some(DecodeError::Malformed) => false,
    }
}

/// What decoding a payload against `shape` comes to.
pub open spec fn payload_outcome(
    payload: Seq<char>,
    shape: Seq<(Seq<char>, FieldKind)>,
    outcome: Option<DecodeError>,
) -> bool {
    match parsed_members(payload) {
        None => outcome == Some(DecodeError::Malformed),
        Some(members) => shape_outcome(members, shape, outcome),
    }
}

/// The error of a result, if it is one.
pub open spec fn error_of<T>(r: Result<T, DecodeError>) -> Option<DecodeError> {
    match r {
        Ok(_) => None,
        Err(e) => Some(e),
    }
}

/// Parses a payload into a JSON document.
pub fn parse_payload(payload: &str) -> (r: Result<serde_json::Value, DecodeError>)
    ensures
        match r {
            Ok(doc) => parsed_members(payload@) == Some(members_of(doc)),
            Err(e) => e == DecodeError::Malformed && parsed_members(payload@) is None,
        },
{
    match parse_document(payload) {
        Ok(doc) => Ok(doc),
        Err(_) => Err(DecodeError::Malformed),
    }
}

fn read_unsigned(doc: &serde_json::Value, name: &'static str) -> (r: Result<u128, DecodeError>)
    ensures
        match r {
            Ok(v) => unsigned_at(members_of(*doc), name@) == Some(v),
            Err(e) => e == DecodeError::Field(name) && !field_present(
                members_of(*doc),
                name@,
                FieldKind::Unsigned,
            ),
        },
{
    let literal = match member(doc, name) {
        Some(value) => as_number(value),
        None => None,
    };
    match literal {
        Some(literal) => match parse_decimal(literal) {
            Some(v) => Ok(v),
            None => Err(DecodeError::Field(name)),
        },
        None => Err(DecodeError::Field(name)),
    }
}

fn read_short(doc: &serde_json::Value, name: &'static str) -> (r: Result<i16, DecodeError>)
    ensures
        match r {
            Ok(v) => short_at(members_of(*doc), name@) == Some(v),
            Err(e) => e == DecodeError::Field(name) && !field_present(
                members_of(*doc),
                name@,
                FieldKind::Short,
            ),
        },
{
    let literal = match member(doc, name) {
        Some(value) => as_number(value),
        None => None,
    };
    match literal {
        Some(literal) => match parse_short(literal) {
            Some(v) => Ok(v),
            None => Err(DecodeError::Field(name)),
        },
        None => Err(DecodeError::Field(name)),
    }
}

fn read_flag(doc: &serde_json::Value, name: &'static str) -> (r: Result<bool, DecodeError>)
    ensures
        match r {
            Ok(v) => flag_at(members_of(*doc), name@) == Some(v),
            Err(e) => e == DecodeError::Field(name) && !field_present(
                members_of(*doc),
                name@,
                FieldKind::Flag,
            ),
        },
{
    let flag = match member(doc, name) {
        Some(value) => as_flag(value),
        None => None,
    };
    match flag {
        Some(v) => Ok(v),
        None => Err(DecodeError::Field(name)),
    }
}

fn read_text(doc: &serde_json::Value, name: &'static str) -> (r: Result<String, DecodeError>)
    ensures
        match r {
            Ok(v) => text_at(members_of(*doc), name@) == Some(v@),
            Err(e) => e == DecodeError::Field(name) && !field_present(
                members_of(*doc),
                name@,
                FieldKind::Text,
            ),
        },
{
    let text = match member(doc, name) {
        Some(value) => as_text(value),
        None => None,
    };
    match text {
        Some(v) => Ok(v.to_owned()),
        None => Err(DecodeError::Field(name)),
    }
}

fn read_time(doc: &serde_json::Value, name: &'static str) -> (r: Result<String, DecodeError>)
    ensures
        match r {
            Ok(v) => time_at(members_of(*doc), name@) == Some(v@),
            Err(e) => e == DecodeError::Field(name) && !field_present(
                members_of(*doc),
                name@,
                FieldKind::Time,
            ),
        },
{
    let text = match member(doc, name) {
        Some(value) => as_text(value),
        None => None,
    };
    match text {
        Some(written) => match normalize_time(written) {
            Some(v) => Ok(v),
            None => Err(DecodeError::Field(name)),
        },
        None => Err(DecodeError::Field(name)),
    }
}

impl PlaceLimitOrderNotif {
    /// The fields of a placed limit order, in the order in which they are read.
    pub open spec fn shape() -> Seq<(Seq<char>, FieldKind)> {
        seq![
            ("txn_version"@, FieldKind::Unsigned),
            ("event_idx"@, FieldKind::Unsigned),
            ("time"@, FieldKind::Time),
            ("market_id"@, FieldKind::Unsigned),
            ("user"@, FieldKind::Text),
            ("custodian_id"@, FieldKind::Unsigned),
            ("order_id"@, FieldKind::Unsigned),
            ("side"@, FieldKind::Flag),
            ("integrator"@, FieldKind::Text),
            ("initial_size"@, FieldKind::Unsigned),
            ("price"@, FieldKind::Unsigned),
            ("restriction"@, FieldKind::Short),
            ("self_match_behavior"@, FieldKind::Short),
            ("size"@, FieldKind::Unsigned),
        ]
    }

    /// Whether every field of the record is what the document holds for it.
    pub open spec fn agrees_with(self, members: Map<Seq<char>, Member>) -> bool {
        &&& unsigned_at(members, "txn_version"@) == Some(self.txn_version)
        &&& unsigned_at(members, "event_idx"@) == Some(self.event_idx)
        &&& time_at(members, "time"@) == Some(self.time@)
        &&& unsigned_at(members, "market_id"@) == Some(self.market_id)
        &&& text_at(members, "user"@) == Some(self.user@)
        &&& unsigned_at(members, "custodian_id"@) == Some(self.custodian_id)
        &&& unsigned_at(members, "order_id"@) == Some(self.order_id)
        &&& flag_at(members, "side"@) == Some(self.side)
        &&& text_at(members, "integrator"@) == Some(self.integrator@)
        &&& unsigned_at(members, "initial_size"@) == Some(self.initial_size)
        &&& unsigned_at(members, "price"@) == Some(self.price)
        &&& short_at(members, "restriction"@) == Some(self.restriction)
        &&& short_at(members, "self_match_behavior"@) == Some(self.self_match_behavior)
        &&& unsigned_at(members, "size"@) == Some(self.size)
    }

    /// Reads the record from a parsed document.
    pub fn from_document(doc: &serde_json::Value) -> (r: Result<Self, DecodeError>)
        ensures
            shape_outcome(members_of(*doc), Self::shape(), error_of(r)),
            r matches Ok(e) ==> e.agrees_with(members_of(*doc)),
    {
        proof {
            reveal_with_fuel(first_absent, 15);
        }
        let txn_version = read_unsigned(doc, "txn_version")?;
        let event_idx = read_unsigned(doc, "event_idx")?;
        let time = read_time(doc, "time")?;
        let market_id = read_unsigned(doc, "market_id")?;
        let user = read_text(doc, "user")?;
        let custodian_id = read_unsigned(doc, "custodian_id")?;
        let order_id = read_unsigned(doc, "order_id")?;
        let side = read_flag(doc, "side")?;
        let integrator = read_text(doc, "integrator")?;
        let initial_size = read_unsigned(doc, "initial_size")?;
        let price = read_unsigned(doc, "price")?;
        let restriction = read_short(doc, "restriction")?;
        let self_match_behavior = read_short(doc, "self_match_behavior")?;
        let size = read_unsigned(doc, "size")?;
        Ok(
            PlaceLimitOrderNotif {
                txn_version,
                event_idx,
                time,
                market_id,
                user,
                custodian_id,
                order_id,
                side,
                integrator,
                initial_size,
                price,
                restriction,
                self_match_behavior,
                size,
            },
        )
    }

    /// Decodes the payload of a notification on the `place_limit_order` channel.
    pub fn decode(payload: &str) -> (r: Result<Self, DecodeError>)
        ensures
            payload_outcome(payload@, Self::shape(), error_of(r)),
            r matches Ok(e) ==> e.agrees_with(parsed_members(payload@)->0),
    {
        let doc = parse_payload(payload)?;
        Self::from_document(&doc)
    }
}

impl PlaceMarketOrderNotif {
    /// The fields of a placed market order, in the order in which they are read.
    pub open spec fn shape() -> Seq<(Seq<char>, FieldKind)> {
        seq![
            ("txn_version"@, FieldKind::Unsigned),
            ("event_idx"@, FieldKind::Unsigned),
            ("time"@, FieldKind::Time),
            ("market_id"@, FieldKind::Unsigned),
            ("user"@, FieldKind::Text),
            ("custodian_id"@, FieldKind::Unsigned),
            ("order_id"@, FieldKind::Unsigned),
            ("direction"@, FieldKind::Flag),
            ("integrator"@, FieldKind::Text),
            ("self_match_behavior"@, FieldKind::Short),
            ("size"@, FieldKind::Unsigned),
        ]
    }

    /// Whether every field of the record is what the document holds for it.
    pub open spec fn agrees_with(self, members: Map<Seq<char>, Member>) -> bool {
        &&& unsigned_at(members, "txn_version"@) == Some(self.txn_version)
        &&& unsigned_at(members, "event_idx"@) == Some(self.event_idx)
        &&& time_at(members, "time"@) == Some(self.time@)
        &&& unsigned_at(members, "market_id"@) == Some(self.market_id)
        &&& text_at(members, "user"@) == Some(self.user@)
        &&& unsigned_at(members, "custodian_id"@) == Some(self.custodian_id)
        &&& unsigned_at(members, "order_id"@) == Some(self.order_id)
        &&& flag_at(members, "direction"@) == Some(self.direction)
        &&& text_at(members, "integrator"@) == Some(self.integrator@)
        &&& short_at(members, "self_match_behavior"@) == Some(self.self_match_behavior)
        &&& unsigned_at(members, "size"@) == Some(self.size)
    }

    /// Reads the record from a parsed document.
    pub fn from_document(doc: &serde_json::Value) -> (r: Result<Self, DecodeError>)
        ensures
            shape_outcome(members_of(*doc), Self::shape(), error_of(r)),
            r matches Ok(e) ==> e.agrees_with(members_of(*doc)),
    {
        proof {
            reveal_with_fuel(first_absent, 12);
        }
        let txn_version = read_unsigned(doc, "txn_version")?;
        let event_idx = read_unsigned(doc, "event_idx")?;
        let time = read_time(doc, "time")?;
        let market_id = read_unsigned(doc, "market_id")?;
        let user = read_text(doc, "user")?;
        let custodian_id = read_unsigned(doc, "custodian_id")?;
        let order_id = read_unsigned(doc, "order_id")?;
        let direction = read_flag(doc, "direction")?;
        let integrator = read_text(doc, "integrator")?;
        let self_match_behavior = read_short(doc, "self_match_behavior")?;
        let size = read_unsigned(doc, "size")?;
        Ok(
            PlaceMarketOrderNotif {
                txn_version,
                event_idx,
                time,
                market_id,
                user,
                custodian_id,
                order_id,
                direction,
                integrator,
                self_match_behavior,
                size,
            },
        )
    }

    /// Decodes the payload of a notification on the `place_market_order` channel.
    pub fn decode(payload: &str) -> (r: Result<Self, DecodeError>)
        ensures
            payload_outcome(payload@, Self::shape(), error_of(r)),
            r matches Ok(e) ==> e.agrees_with(parsed_members(payload@)->0),
    {
        let doc = parse_payload(payload)?;
        Self::from_document(&doc)
    }
}

impl PlaceSwapOrderNotif {
    /// The fields of a placed swap order, in the order in which they are read.
    pub open spec fn shape() -> Seq<(Seq<char>, FieldKind)> {
        seq![
            ("txn_version"@, FieldKind::Unsigned),
            ("event_idx"@, FieldKind::Unsigned),
            ("time"@, FieldKind::Time),
            ("market_id"@, FieldKind::Unsigned),
            ("order_id"@, FieldKind::Unsigned),
            ("direction"@, FieldKind::Flag),
            ("signing_account"@, FieldKind::Text),
            ("integrator"@, FieldKind::Text),
            ("min_base"@, FieldKind::Unsigned),
            ("max_base"@, FieldKind::Unsigned),
            ("min_quote"@, FieldKind::Unsigned),
            ("max_quote"@, FieldKind::Unsigned),
            ("limit_price"@, FieldKind::Unsigned),
        ]
    }

    /// Whether every field of the record is what the document holds for it.
    pub open spec fn agrees_with(self, members: Map<Seq<char>, Member>) -> bool {
        &&& unsigned_at(members, "txn_version"@) == Some(self.txn_version)
        &&& unsigned_at(members, "event_idx"@) == Some(self.event_idx)
        &&& time_at(members, "time"@) == Some(self.time@)
        &&& unsigned_at(members, "market_id"@) == Some(self.market_id)
        &&& unsigned_at(members, "order_id"@) == Some(self.order_id)
        &&& flag_at(members, "direction"@) == Some(self.direction)
        &&& text_at(members, "signing_account"@) == Some(self.signing_account@)
        &&& text_at(members, "integrator"@) == Some(self.integrator@)
        &&& unsigned_at(members, "min_base"@) == Some(self.min_base)
        &&& unsigned_at(members, "max_base"@) == Some(self.max_base)
        &&& unsigned_at(members, "min_quote"@) == Some(self.min_quote)
        &&& unsigned_at(members, "max_quote"@) == Some(self.max_quote)
        &&& unsigned_at(members, "limit_price"@) == Some(self.limit_price)
    }

    /// Reads the record from a parsed document.
    pub fn from_document(doc: &serde_json::Value) -> (r: Result<Self, DecodeError>)
        ensures
            shape_outcome(members_of(*doc), Self::shape(), error_of(r)),
            r matches Ok(e) ==> e.agrees_with(members_of(*doc)),
    {
        proof {
            reveal_with_fuel(first_absent, 14);
        }
        let txn_version = read_unsigned(doc, "txn_version")?;
        let event_idx = read_unsigned(doc, "event_idx")?;
        let time = read_time(doc, "time")?;
        let market_id = read_unsigned(doc, "market_id")?;
        let order_id = read_unsigned(doc, "order_id")?;
        let direction = read_flag(doc, "direction")?;
        let signing_account = read_text(doc, "signing_account")?;
        let integrator = read_text(doc, "integrator")?;
        let min_base = read_unsigned(doc, "min_base")?;
        let max_base = read_unsigned(doc, "max_base")?;
        let min_quote = read_unsigned(doc, "min_quote")?;
        let max_quote = read_unsigned(doc, "max_quote")?;
        let limit_price = read_unsigned(doc, "limit_price")?;
        Ok(
            PlaceSwapOrderNotif {
                txn_version,
                event_idx,
                time,
                market_id,
                order_id,
                direction,
                signing_account,
                integrator,
                min_base,
                max_base,
                min_quote,
                max_quote,
                limit_price,
            },
        )
    }

    /// Decodes the payload of a notification on the `place_swap_order` channel.
    pub fn decode(payload: &str) -> (r: Result<Self, DecodeError>)
        ensures
            payload_outcome(payload@, Self::shape(), error_of(r)),
            r matches Ok(e) ==> e.agrees_with(parsed_members(payload@)->0),
    {
        let doc = parse_payload(payload)?;
        Self::from_document(&doc)
    }
}

impl ChangeOrderSizeNotif {
    /// The fields of a changed order size, in the order in which they are read.
    pub open spec fn shape() -> Seq<(Seq<char>, FieldKind)> {
        seq![
            ("txn_version"@, FieldKind::Unsigned),
            ("event_idx"@, FieldKind::Unsigned),
            ("time"@, FieldKind::Time),
            ("market_id"@, FieldKind::Unsigned),
            ("user"@, FieldKind::Text),
            ("custodian_id"@, FieldKind::Unsigned),
            ("order_id"@, FieldKind::Unsigned),
            ("side"@, FieldKind::Flag),
            ("new_size"@, FieldKind::Unsigned),
        ]
    }

    /// Whether every field of the record is what the document holds for it.
    pub open spec fn agrees_with(self, members: Map<Seq<char>, Member>) -> bool {
        &&& unsigned_at(members, "txn_version"@) == Some(self.txn_version)
        &&& unsigned_at(members, "event_idx"@) == Some(self.event_idx)
        &&& time_at(members, "time"@) == Some(self.time@)
        &&& unsigned_at(members, "market_id"@) == Some(self.market_id)
        &&& text_at(members, "user"@) == Some(self.user@)
        &&& unsigned_at(members, "custodian_id"@) == Some(self.custodian_id)
        &&& unsigned_at(members, "order_id"@) == Some(self.order_id)
        &&& flag_at(members, "side"@) == Some(self.side)
        &&& unsigned_at(members, "new_size"@) == Some(self.new_size)
    }

    /// Reads the record from a parsed document.
    pub fn from_document(doc: &serde_json::Value) -> (r: Result<Self, DecodeError>)
        ensures
            shape_outcome(members_of(*doc), Self::shape(), error_of(r)),
            r matches Ok(e) ==> e.agrees_with(members_of(*doc)),
    {
        proof {
            reveal_with_fuel(first_absent, 10);
        }
        let txn_version = read_unsigned(doc, "txn_version")?;
        let event_idx = read_unsigned(doc, "event_idx")?;
        let time = read_time(doc, "time")?;
        let market_id = read_unsigned(doc, "market_id")?;
        let user = read_text(doc, "user")?;
        let custodian_id = read_unsigned(doc, "custodian_id")?;
        let order_id = read_unsigned(doc, "order_id")?;
        let side = read_flag(doc, "side")?;
        let new_size = read_unsigned(doc, "new_size")?;
        Ok(
            ChangeOrderSizeNotif {
                txn_version,
                event_idx,
                time,
                market_id,
                user,
                custodian_id,
                order_id,
                side,
                new_size,
            },
        )
    }

    /// Decodes the payload of a notification on the `change_order_size` channel.
    pub fn decode(payload: &str) -> (r: Result<Self, DecodeError>)
        ensures
            payload_outcome(payload@, Self::shape(), error_of(r)),
            r matches Ok(e) ==> e.agrees_with(parsed_members(payload@)->0),
    {
        let doc = parse_payload(payload)?;
        Self::from_document(&doc)
    }
}

impl CancelOrderNotif {
    /// The fields of a canceled order, in the order in which they are read.
    pub open spec fn shape() -> Seq<(Seq<char>, FieldKind)> {
        seq![
            ("txn_version"@, FieldKind::Unsigned),
            ("event_idx"@, FieldKind::Unsigned),
            ("time"@, FieldKind::Time),
            ("market_id"@, FieldKind::Unsigned),
            ("user"@, FieldKind::Text),
            ("custodian_id"@, FieldKind::Unsigned),
            ("order_id"@, FieldKind::Unsigned),
            ("reason"@, FieldKind::Short),
        ]
    }

    /// Whether every field of the record is what the document holds for it.
    pub open spec fn agrees_with(self, members: Map<Seq<char>, Member>) -> bool {
        &&& unsigned_at(members, "txn_version"@) == Some(self.txn_version)
        &&& unsigned_at(members, "event_idx"@) == Some(self.event_idx)
        &&& time_at(members, "time"@) == Some(self.time@)
        &&& unsigned_at(members, "market_id"@) == Some(self.market_id)
        &&& text_at(members, "user"@) == Some(self.user@)
        &&& unsigned_at(members, "custodian_id"@) == Some(self.custodian_id)
        &&& unsigned_at(members, "order_id"@) == Some(self.order_id)
        &&& short_at(members, "reason"@) == Some(self.reason)
    }

    /// Reads the record from a parsed document.
    pub fn from_document(doc: &serde_json::Value) -> (r: Result<Self, DecodeError>)
        ensures
            shape_outcome(members_of(*doc), Self::shape(), error_of(r)),
            r matches Ok(e) ==> e.agrees_with(members_of(*doc)),
    {
        proof {
            reveal_with_fuel(first_absent, 9);
        }
        let txn_version = read_unsigned(doc, "txn_version")?;
        let event_idx = read_unsigned(doc, "event_idx")?;
        let time = read_time(doc, "time")?;
        let market_id = read_unsigned(doc, "market_id")?;
        let user = read_text(doc, "user")?;
        let custodian_id = read_unsigned(doc, "custodian_id")?;
        let order_id = read_unsigned(doc, "order_id")?;
        let reason = read_short(doc, "reason")?;
        Ok(
            CancelOrderNotif {
                txn_version,
                event_idx,
                time,
                market_id,
                user,
                custodian_id,
                order_id,
                reason,
            },
        )
    }

    /// Decodes the payload of a notification on the `cancel_order` channel.
    pub fn decode(payload: &str) -> (r: Result<Self, DecodeError>)
        ensures
            payload_outcome(payload@, Self::shape(), error_of(r)),
            r matches Ok(e) ==> e.agrees_with(parsed_members(payload@)->0),
    {
        let doc = parse_payload(payload)?;
        Self::from_document(&doc)
    }
}

impl FillNotif {
    /// The fields of a fill, in the order in which they are read.
    pub open spec fn shape() -> Seq<(Seq<char>, FieldKind)> {
        seq![
            ("txn_version"@, FieldKind::Unsigned),
            ("event_idx"@, FieldKind::Unsigned),
            ("emit_address"@, FieldKind::Text),
            ("time"@, FieldKind::Time),
            ("maker_address"@, FieldKind::Text),
            ("maker_custodian_id"@, FieldKind::Unsigned),
            ("maker_order_id"@, FieldKind::Unsigned),
            ("maker_side"@, FieldKind::Flag),
            ("market_id"@, FieldKind::Unsigned),
            ("price"@, FieldKind::Unsigned),
            ("sequence_number_for_trade"@, FieldKind::Unsigned),
            ("size"@, FieldKind::Unsigned),
            ("taker_address"@, FieldKind::Text),
            ("taker_custodian_id"@, FieldKind::Unsigned),
            ("taker_order_id"@, FieldKind::Unsigned),
            ("taker_quote_fees_paid"@, FieldKind::Unsigned),
        ]
    }

    /// Whether every field of the record is what the document holds for it.
    pub open spec fn agrees_with(self, members: Map<Seq<char>, Member>) -> bool {
        &&& unsigned_at(members, "txn_version"@) == Some(self.txn_version)
        &&& unsigned_at(members, "event_idx"@) == Some(self.event_idx)
        &&& text_at(members, "emit_address"@) == Some(self.emit_address@)
        &&& time_at(members, "time"@) == Some(self.time@)
        &&& text_at(members, "maker_address"@) == Some(self.maker_address@)
        &&& unsigned_at(members, "maker_custodian_id"@) == Some(self.maker_custodian_id)
        &&& unsigned_at(members, "maker_order_id"@) == Some(self.maker_order_id)
        &&& flag_at(members, "maker_side"@) == Some(self.maker_side)
        &&& unsigned_at(members, "market_id"@) == Some(self.market_id)
        &&& unsigned_at(members, "price"@) == Some(self.price)
        &&& unsigned_at(members, "sequence_number_for_trade"@) == Some(self.sequence_number_for_trade)
        &&& unsigned_at(members, "size"@) == Some(self.size)
        &&& text_at(members, "taker_address"@) == Some(self.taker_address@)
        &&& unsigned_at(members, "taker_custodian_id"@) == Some(self.taker_custodian_id)
        &&& unsigned_at(members, "taker_order_id"@) == Some(self.taker_order_id)
        &&& unsigned_at(members, "taker_quote_fees_paid"@) == Some(self.taker_quote_fees_paid)
    }

    /// Reads the record from a parsed document.
    pub fn from_document(doc: &serde_json::Value) -> (r: Result<Self, DecodeError>)
        ensures
            shape_outcome(members_of(*doc), Self::shape(), error_of(r)),
            r matches Ok(e) ==> e.agrees_with(members_of(*doc)),
    {
        proof {
            reveal_with_fuel(first_absent, 17);
        }
        let txn_version = read_unsigned(doc, "txn_version")?;
        let event_idx = read_unsigned(doc, "event_idx")?;
        let emit_address = read_text(doc, "emit_address")?;
        let time = read_time(doc, "time")?;
        let maker_address = read_text(doc, "maker_address")?;
        let maker_custodian_id = read_unsigned(doc, "maker_custodian_id")?;
        let maker_order_id = read_unsigned(doc, "maker_order_id")?;
        let maker_side = read_flag(doc, "maker_side")?;
        let market_id = read_unsigned(doc, "market_id")?;
        let price = read_unsigned(doc, "price")?;
        let sequence_number_for_trade = read_unsigned(doc, "sequence_number_for_trade")?;
        let size = read_unsigned(doc, "size")?;
        let taker_address = read_text(doc, "taker_address")?;
        let taker_custodian_id = read_unsigned(doc, "taker_custodian_id")?;
        let taker_order_id = read_unsigned(doc, "taker_order_id")?;
        let taker_quote_fees_paid = read_unsigned(doc, "taker_quote_fees_paid")?;
        Ok(
            FillNotif {
                txn_version,
                event_idx,
                emit_address,
                time,
                maker_address,
                maker_custodian_id,
                maker_order_id,
                maker_side,
                market_id,
                price,
                sequence_number_for_trade,
                size,
                taker_address,
                taker_custodian_id,
                taker_order_id,
                taker_quote_fees_paid,
            },
        )
    }

    /// Decodes the payload of a notification on the `fill` channel.
    pub fn decode(payload: &str) -> (r: Result<Self, DecodeError>)
        ensures
            payload_outcome(payload@, Self::shape(), error_of(r)),
            r matches Ok(e) ==> e.agrees_with(parsed_members(payload@)->0),
    {
        let doc = parse_payload(payload)?;
        Self::from_document(&doc)
    }
}

/// The shape against which a payload of the given kind is decoded.
pub open spec fn shape_of(kind: EventKind) -> Seq<(Seq<char>, FieldKind)> {
    match kind {
        EventKind::PlaceLimitOrder => PlaceLimitOrderNotif::shape(),
        EventKind::PlaceMarketOrder => PlaceMarketOrderNotif::shape(),
        EventKind::PlaceSwapOrder => PlaceSwapOrderNotif::shape(),
        EventKind::ChangeOrderSize => ChangeOrderSizeNotif::shape(),
        EventKind::CancelOrder => CancelOrderNotif::shape(),
        EventKind::Fill => FillNotif::shape(),
    }
}

impl ChangeEvent {
    /// Whether every field of the event is what the document holds for it.
    pub open spec fn agrees_with(self, members: Map<Seq<char>, Member>) -> bool {
        match self {
            ChangeEvent::PlaceLimitOrder(e) => e.agrees_with(members),
            ChangeEvent::PlaceMarketOrder(e) => e.agrees_with(members),
            ChangeEvent::PlaceSwapOrder(e) => e.agrees_with(members),
            ChangeEvent::ChangeOrderSize(e) => e.agrees_with(members),
            ChangeEvent::CancelOrder(e) => e.agrees_with(members),
            ChangeEvent::Fill(e) => e.agrees_with(members),
        }
    }

    /// Reads the event of the given kind from a parsed document.
    pub fn from_document(kind: EventKind, doc: &serde_json::Value) -> (r: Result<
        ChangeEvent,
        DecodeError,
    >)
        ensures
            shape_outcome(members_of(*doc), shape_of(kind), error_of(r)),
            r matches Ok(e) ==> e.kind_spec() == kind && e.agrees_with(members_of(*doc)),
    {
        match kind {
            EventKind::PlaceLimitOrder => match PlaceLimitOrderNotif::from_document(doc) {
                Ok(e) => Ok(ChangeEvent::PlaceLimitOrder(e)),
                Err(e) => Err(e),
            },
            EventKind::PlaceMarketOrder => match PlaceMarketOrderNotif::from_document(doc) {
                Ok(e) => Ok(ChangeEvent::PlaceMarketOrder(e)),
                Err(e) => Err(e),
            },
            EventKind::PlaceSwapOrder => match PlaceSwapOrderNotif::from_document(doc) {
                Ok(e) => Ok(ChangeEvent::PlaceSwapOrder(e)),
                Err(e) => Err(e),
            },
            EventKind::ChangeOrderSize => match ChangeOrderSizeNotif::from_document(doc) {
                Ok(e) => Ok(ChangeEvent::ChangeOrderSize(e)),
                Err(e) => Err(e),
            },
            EventKind::CancelOrder => match CancelOrderNotif::from_document(doc) {
                Ok(e) => Ok(ChangeEvent::CancelOrder(e)),
                Err(e) => Err(e),
            },
            EventKind::Fill => match FillNotif::from_document(doc) {
                Ok(e) => Ok(ChangeEvent::Fill(e)),
                Err(e) => Err(e),
            },
        }
    }

    /// Decodes the payload of a notification of the given kind: exactly one
    /// event of that kind, or the reason why the payload has not its shape.
    pub fn decode(kind: EventKind, payload: &str) -> (r: Result<ChangeEvent, DecodeError>)
        ensures
            payload_outcome(payload@, shape_of(kind), error_of(r)),
            r matches Ok(e) ==> e.kind_spec() == kind && e.agrees_with(
                parsed_members(payload@)->0,
            ),
    {
        let doc = parse_payload(payload)?;
        Self::from_document(kind, &doc)
    }
}

} // verus!
