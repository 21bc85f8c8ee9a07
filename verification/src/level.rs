//! Price levels: the aggregated depth of the order book, one message per
//! level.
//!
//! Each cycle the database hands over one row per market, side and price
//! among the ten best prices of each side. A row that lacks a value, or whose
//! price or size is no unsigned 128-bit integer, ends the cycle with an error.
//! Decimal values come as the database writes them, in plain notation;
//! reading them is the work of `bigdecimal`.

use vstd::prelude::*;
use vstd::string::StringExecFns;
use crate::decimal::{decimal, push_signed, signed_decimal};
use crate::dispatch::{Delivery, Message, Publish};
use crate::event::str_eq;
use crate::payload::put_number;

verus! {

/// How often the price levels are published, in milliseconds.
pub const LEVEL_PERIOD_MILLIS: u64 = 50;

/// How many levels are published for each side of each market.
pub const LEVELS_PER_SIDE: u64 = 10;

/// Whether the configured setting asks for price levels: it does when it
/// is `yes`, and nothing else does.
pub fn publishes_price_levels(setting: &str) -> (on: bool)
    ensures
        on == (setting@ == "yes"@),
{
    str_eq(setting, "yes")
}

/// One row of the aggregation, as it comes from the database. Any value but
/// the market may be missing.
#[derive(Clone, Debug, PartialEq, Eq)]
pub struct LevelRow {
    /// The market's identifier, as the database writes it.
    pub market_id: String,
    /// The side of the book: `ask` or `bid`.
    pub direction: Option<String>,
    /// The price of the level, in plain decimal notation.
    pub price: Option<String>,
    /// The sum of the sizes that remain open at the price, in plain decimal
    /// notation.
    pub total_size: Option<String>,
    /// The rank of the price on its side of the market, the best price first.
    pub level: Option<i64>,
}

/// Why a row could not be published.
#[derive(Clone, Copy, Debug, PartialEq, Eq, Structural)]
pub enum LevelError {
    DirectionMissing,
    LevelMissing,
    PriceMissing,
    PriceNotDecimal,
    PriceTooBig,
    TotalSizeMissing,
    TotalSizeNotDecimal,
    TotalSizeTooBig,
}

/// What is published for one level.
#[derive(Clone, Copy, Debug, PartialEq, Eq, Structural)]
pub struct PriceLevel {
    pub price: u128,
    pub amount: u128,
}

/// Whether a character marks an exponent in a decimal number.
pub open spec fn is_exponent_mark(c: char) -> bool {
    c == 'e' || c == 'E'
}

/// Whether a text is written without an exponent.
pub open spec fn plain(text: Seq<char>) -> bool {
    forall|i: int| 0 <= i < text.len() ==> !is_exponent_mark(#[trigger] text[i])
}

/// What a plain decimal number comes to as an unsigned 128-bit integer:
/// `None` where the text is no decimal number, `Some(None)` where the number
/// is negative or too big, else its integral part.
pub uninterp spec fn decimal_integral(text: Seq<char>) -> Option<Option<u128>>;

/// Reads `text` with `bigdecimal`'s `FromStr` for `BigDecimal` and converts
/// the number with its `ToPrimitive::to_u128`.
///
/// Trusted: both steps depend on the text alone; `decimal_integral` names
/// the outcome. An exponent is left out because the conversion scales the
/// number by it, which takes time and memory without bound.
#[verifier::external_body]
pub(crate) fn read_integral(text: &str) -> (r: Option<Option<u128>>)
    requires
        plain(text@),
    ensures
        r == decimal_integral(text@),
{
    match text.parse::<bigdecimal::BigDecimal>() {
        Ok(number) => Some(bigdecimal::ToPrimitive::to_u128(&number)),
        Err(_) => None,
    }
}

/// Whether a text is written without an exponent.
pub fn is_plain(text: &str) -> (r: bool)
    ensures
        r == plain(text@),
{
    let mut ok = true;
    for c in it: text.chars()
        invariant
            it.seq() == text@,
            ok == plain(text@.subrange(0, it.index() as int)),
    {
        let ghost before = text@.subrange(0, it.index() as int);
        let ghost after = text@.subrange(0, it.index() as int + 1);
        proof {
            assert(after.drop_last() =~= before);
            assert(after.last() == c);
            assert(forall|i: int| 0 <= i < before.len() ==> before[i] == after[i]);
        }
        if c == 'e' || c == 'E' {
            ok = false;
            assert(is_exponent_mark(after[after.len() - 1]));
        }
    }
    assert(text@.subrange(0, text@.len() as int) =~= text@);
    ok
}

/// What a decimal value of a row comes to, given what reading it as a plain
/// decimal number gave.
pub open spec fn amount_from(
    text: Option<Seq<char>>,
    missing: LevelError,
    not_decimal: LevelError,
    too_big: LevelError,
) -> Result<u128, LevelError> {
    match text {
        None => Err(missing),
        Some(t) => if !plain(t) {
            Err(not_decimal)
        } else {
            match decimal_integral(t) {
                None => Err(not_decimal),
                Some(None) => Err(too_big),
                Some(Some(v)) => Ok(v),
            }
        },
    }
}

/// The characters of a text that may be missing.
pub open spec fn text_of(value: Option<String>) -> Option<Seq<char>> {
    match value {
        Some(s) => Some(s@),
        None => None,
    }
}

/// The topic `levels/{market}/{side}/{rank}`.
pub open spec fn level_topic(market: Seq<char>, side: Seq<char>, rank: int) -> Seq<char> {
    "levels/"@ + market + "/"@ + side + "/"@ + signed_decimal(rank)
}

impl PriceLevel {
    /// The JSON object `{"price":..,"amount":..}`.
    pub open spec fn payload_spec(self) -> Seq<char> {
        "{"@ + "\"price\":"@ + decimal(self.price as nat) + ",\"amount\":"@ + decimal(
            self.amount as nat,
        ) + "}"@
    }

    /// Writes the published JSON object.
    pub fn payload(&self) -> (p: String)
        ensures
            p@ == self.payload_spec(),
    {
        let mut p = String::from_str("{");
        put_number(&mut p, "\"price\":", self.price);
        put_number(&mut p, ",\"amount\":", self.amount);
        p.append("}");
        p
    }
}

impl LevelError {
    /// What the error says.
    pub open spec fn message_spec(self) -> Seq<char> {
        match self {
            LevelError::DirectionMissing => "direction is None"@,
            LevelError::LevelMissing => "level is None"@,
            LevelError::PriceMissing => "price is None"@,
            LevelError::PriceNotDecimal => "price is not a plain decimal"@,
            LevelError::PriceTooBig => "price is too big"@,
            LevelError::TotalSizeMissing => "total_size is None"@,
            LevelError::TotalSizeNotDecimal => "total_size is not a plain decimal"@,
            LevelError::TotalSizeTooBig => "total_size is too big"@,
        }
    }

    /// What the error says.
    pub fn message(&self) -> (s: &'static str)
        ensures
            s@ == self.message_spec(),
    {
        match self {
            LevelError::DirectionMissing => "direction is None",
            LevelError::LevelMissing => "level is None",
            LevelError::PriceMissing => "price is None",
            LevelError::PriceNotDecimal => "price is not a plain decimal",
            LevelError::PriceTooBig => "price is too big",
            LevelError::TotalSizeMissing => "total_size is None",
            LevelError::TotalSizeNotDecimal => "total_size is not a plain decimal",
            LevelError::TotalSizeTooBig => "total_size is too big",
        }
    }
}

impl LevelRow {
    /// The price and the amount of the row.
    pub open spec fn price_level(self) -> Result<PriceLevel, LevelError> {
        match amount_from(
            text_of(self.price),
            LevelError::PriceMissing,
            LevelError::PriceNotDecimal,
            LevelError::PriceTooBig,
        ) {
            Err(e) => Err(e),
            Ok(price) => match amount_from(
                text_of(self.total_size),
                LevelError::TotalSizeMissing,
                LevelError::TotalSizeNotDecimal,
                LevelError::TotalSizeTooBig,
            ) {
                Err(e) => Err(e),
                Ok(amount) => Ok(PriceLevel { price, amount }),
            },
        }
    }

    /// The message of the row, or the first thing that is wrong with it: the
    /// side is looked at first, then the rank, the price and the size.
    pub open spec fn message(self) -> Result<Message, LevelError> {
        match self.direction {
            None => Err(LevelError::DirectionMissing),
            Some(side) => match self.level {
                None => Err(LevelError::LevelMissing),
                Some(rank) => match self.price_level() {
                    Err(e) => Err(e),
                    Ok(level) => Ok(
                        Message {
                            topic: level_topic(self.market_id@, side@, rank as int),
                            payload: level.payload_spec(),
                        },
                    ),
                },
            },
        }
    }

    /// Builds the message that is published for the row.
    pub fn publish(&self) -> (r: Result<Publish, LevelError>)
        ensures
            match r {
                Ok(p) => self.message() == Ok::<Message, LevelError>(p@) && p.delivery
                    == Delivery::AtLeastOnce && !p.retain,
                Err(e) => self.message() == Err::<Message, LevelError>(e),
            },
    {
        let side = match &self.direction {
            Some(side) => side,
            None => return Err(LevelError::DirectionMissing),
        };
        let rank = match self.level {
            Some(rank) => rank,
            None => return Err(LevelError::LevelMissing),
        };
        let price = read_amount(
            &self.price,
            LevelError::PriceMissing,
            LevelError::PriceNotDecimal,
            LevelError::PriceTooBig,
        )?;
        let amount = read_amount(
            &self.total_size,
            LevelError::TotalSizeMissing,
            LevelError::TotalSizeNotDecimal,
            LevelError::TotalSizeTooBig,
        )?;
        let mut topic = String::from_str("levels/");
        topic.append(self.market_id.as_str());
        topic.append("/");
        topic.append(side.as_str());
        topic.append("/");
        push_signed(&mut topic, rank);
        let level = PriceLevel { price, amount };
        Ok(Publish { topic, payload: level.payload(), delivery: Delivery::AtLeastOnce, retain: false })
    }
}

/// Reads a decimal value of a row as an unsigned 128-bit integer.
pub fn read_amount(
    text: &Option<String>,
    missing: LevelError,
    not_decimal: LevelError,
    too_big: LevelError,
) -> (r: Result<u128, LevelError>)
    ensures
        r == amount_from(text_of(*text), missing, not_decimal, too_big),
{
    match text {
        None => Err(missing),
        Some(t) => {
            if !is_plain(t.as_str()) {
                return Err(not_decimal);
            }
            amount_of(read_integral(t.as_str()), missing, not_decimal, too_big)
        },
    }
}

/// What a decimal value that is there and plain comes to, given what reading
/// it gave.
pub fn amount_of(
    read: Option<Option<u128>>,
    missing: LevelError,
    not_decimal: LevelError,
    too_big: LevelError,
) -> (r: Result<u128, LevelError>)
    ensures
        r == match read {
            None => Err::<u128, LevelError>(not_decimal),
            Some(None) => Err(too_big),
            Some(Some(v)) => Ok(v),
        },
{
    match read {
        None => Err(not_decimal),
        Some(None) => Err(too_big),
        Some(Some(v)) => Ok(v),
    }
}

} // verus!
