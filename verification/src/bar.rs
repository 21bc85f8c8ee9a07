//! Candlestick bars and the intervals they cover.

use vstd::prelude::*;

verus! {

/// One candlestick: the prices and the volume of a market over one interval.
#[derive(Clone, Debug, PartialEq, Eq)]
pub struct Bar {
    pub market_id: u64,
    /// When the interval starts, as RFC 3339 text in UTC.
    pub start_time: String,
    pub open: u64,
    pub high: u64,
    pub low: u64,
    pub close: u64,
    pub volume: u64,
}

/// Width of a candlestick bar.
#[derive(Clone, Copy, Debug, PartialEq, Eq, Structural)]
pub enum Interval {
    /// One minute.
    I1m,
    /// Five minutes.
    I5m,
}

impl Interval {
    /// The characters of the interval's label.
    pub open spec fn label_spec(self) -> Seq<char> {
        match self {
            Interval::I1m => "1m"@,
            Interval::I5m => "5m"@,
        }
    }

    /// The label under which the interval is written: `1m` or `5m`.
    pub fn label(&self) -> (s: &'static str)
        ensures
            s@ == self.label_spec(),
    {
        match self {
            Interval::I1m => "1m",
            Interval::I5m => "5m",
        }
    }
}

} // verus!
