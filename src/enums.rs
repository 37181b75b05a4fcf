//! Small enumerations shared by the market-data and trading modules.
use vstd::prelude::*;

verus! {

/// Length of one candle.
#[derive(Debug, Clone, Copy, PartialEq, Eq, Structural)]
pub enum KLinePeriod {
    Min1,
    Min5,
    Min15,
    Min30,
    Hour1,
    Hour4,
    Day1,
}

/// The interval name that the exchange uses for a candle length.
pub open spec fn period_label(p: KLinePeriod) -> Seq<char> {
    match p {
        KLinePeriod::Min1 => seq!['1', 'm'],
        KLinePeriod::Min5 => seq!['5', 'm'],
        KLinePeriod::Min15 => seq!['1', '5', 'm'],
        KLinePeriod::Min30 => seq!['3', '0', 'm'],
        KLinePeriod::Hour1 => seq!['1', 'h'],
        KLinePeriod::Hour4 => seq!['4', 'h'],
        KLinePeriod::Day1 => seq!['1', 'd'],
    }
}

impl KLinePeriod {
    pub fn as_str(&self) -> (r: &'static str)
        ensures
            r@ == period_label(*self),
    {
        match self {
            KLinePeriod::Min1 => {
                proof { reveal_strlit("1m"); }
                "1m"
            },
            KLinePeriod::Min5 => {
                proof { reveal_strlit("5m"); }
                "5m"
            },
            KLinePeriod::Min15 => {
                proof { reveal_strlit("15m"); }
                "15m"
            },
            KLinePeriod::Min30 => {
                proof { reveal_strlit("30m"); }
                "30m"
            },
            KLinePeriod::Hour1 => {
                proof { reveal_strlit("1h"); }
                "1h"
            },
            KLinePeriod::Hour4 => {
                proof { reveal_strlit("4h"); }
                "4h"
            },
            KLinePeriod::Day1 => {
                proof { reveal_strlit("1d"); }
                "1d"
            },
        }
    }
}

/// Kind of futures contract.
#[derive(Debug, Clone, Copy, PartialEq, Eq, Structural)]
pub enum ContractType {
    Perpetual,
    CurrentMonth,
    NextMonth,
    CurrentQuarter,
    NextQuarter,
    PerpetualDelivering,
}

/// Direction of a position: `Buy` is long, `Sell` is short.
#[derive(Debug, Clone, Copy, PartialEq, Eq, Structural)]
pub enum OrderSide {
    Buy,
    Sell,
}

} // verus!
