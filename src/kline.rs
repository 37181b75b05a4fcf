//! Candles in fixed-point form.
use vstd::prelude::*;
use crate::MAX_PRICE;
use crate::decimal::{fixed_of, parse_fixed};

verus! {

/// One OHLCV bar. Prices and volumes are in fixed-point units.
#[derive(Debug, Clone, Copy, PartialEq, Eq, Structural)]
pub struct KLine {
    pub start_time: i64,
    pub open_price: u64,
    pub high_price: u64,
    pub low_price: u64,
    pub close_price: u64,
    pub volume: u64,
    pub close_time: i64,
    pub quote_volume: u64,
    pub number_of_trades: u64,
    pub taker_buy_volume: u64,
    pub taker_buy_quote_volume: u64,
}

/// One field of a candle row as the exchange sends it: times and counts as
/// integers, prices and volumes as decimal text.
#[derive(Debug, Clone)]
pub enum RawField {
    Int(i64),
    Text(String),
    Other,
}

pub open spec fn raw_int(f: RawField) -> Option<i64> {
    match f {
        RawField::Int(v) => Some(v),
        _ => None,
    }
}

pub open spec fn raw_fixed(f: RawField) -> Option<u64> {
    match f {
        RawField::Text(t) => fixed_of(t@),
        _ => None,
    }
}

/// The candle that a row spells: integers at 0, 6 and 8 (a count, so not
/// negative), decimal text at the other positions up to 10.
pub open spec fn kline_of(raw: Seq<RawField>) -> Option<KLine> {
    if raw.len() >= 11 && raw_int(raw[0]) is Some && raw_fixed(raw[1]) is Some
        && raw_fixed(raw[2]) is Some && raw_fixed(raw[3]) is Some
        && raw_fixed(raw[4]) is Some && raw_fixed(raw[5]) is Some
        && raw_int(raw[6]) is Some && raw_fixed(raw[7]) is Some
        && raw_int(raw[8]) is Some && raw_int(raw[8])->0 >= 0
        && raw_fixed(raw[9]) is Some && raw_fixed(raw[10]) is Some {
        Some(KLine {
            start_time: raw_int(raw[0])->0,
            open_price: raw_fixed(raw[1])->0,
            high_price: raw_fixed(raw[2])->0,
            low_price: raw_fixed(raw[3])->0,
            close_price: raw_fixed(raw[4])->0,
            volume: raw_fixed(raw[5])->0,
            close_time: raw_int(raw[6])->0,
            quote_volume: raw_fixed(raw[7])->0,
            number_of_trades: raw_int(raw[8])->0 as u64,
            taker_buy_volume: raw_fixed(raw[9])->0,
            taker_buy_quote_volume: raw_fixed(raw[10])->0,
        })
    } else {
        None
    }
}

fn field_int(f: &RawField) -> (r: Option<i64>)
    ensures
        r == raw_int(*f),
{
    match f {
        RawField::Int(v) => Some(*v),
        _ => None,
    }
}

fn field_fixed(f: &RawField) -> (r: Option<u64>)
    ensures
        r == raw_fixed(*f),
{
    match f {
        RawField::Text(t) => parse_fixed(t.as_str()),
        _ => None,
    }
}

impl KLine {
    /// Reads a candle row; `None` when it is short or a field does not read.
    pub fn from_raw(raw: &Vec<RawField>) -> (r: Option<KLine>)
        ensures
            r == kline_of(raw@),
    {
        if raw.len() < 11 {
            return None;
        }
        let start_time = match field_int(&raw[0]) { Some(v) => v, None => return None };
        let open_price = match field_fixed(&raw[1]) { Some(v) => v, None => return None };
        let high_price = match field_fixed(&raw[2]) { Some(v) => v, None => return None };
        let low_price = match field_fixed(&raw[3]) { Some(v) => v, None => return None };
        let close_price = match field_fixed(&raw[4]) { Some(v) => v, None => return None };
        let volume = match field_fixed(&raw[5]) { Some(v) => v, None => return None };
        let close_time = match field_int(&raw[6]) { Some(v) => v, None => return None };
        let quote_volume = match field_fixed(&raw[7]) { Some(v) => v, None => return None };
        let trades = match field_int(&raw[8]) { Some(v) => v, None => return None };
        if trades < 0 {
            return None;
        }
        let taker_buy_volume = match field_fixed(&raw[9]) { Some(v) => v, None => return None };
        let taker_buy_quote_volume = match field_fixed(&raw[10]) {
            Some(v) => v,
            None => return None,
        };
        Some(KLine {
            start_time,
            open_price,
            high_price,
            low_price,
            close_price,
            volume,
            close_time,
            quote_volume,
            number_of_trades: trades as u64,
            taker_buy_volume,
            taker_buy_quote_volume,
        })
    }

    /// The candle closes after it starts, its high and low bound its open and
    /// close, its low is a positive price and its high a representable one.
    pub open spec fn wf(&self) -> bool {
        &&& self.close_time > self.start_time
        &&& self.low_price > 0
        &&& self.high_price <= MAX_PRICE
        &&& self.low_price <= self.open_price <= self.high_price
        &&& self.low_price <= self.close_price <= self.high_price
    }

    pub fn is_valid(&self) -> (r: bool)
        ensures
            r == self.wf(),
    {
        self.close_time > self.start_time && self.low_price > 0 && self.high_price <= MAX_PRICE
            && self.low_price <= self.open_price && self.open_price <= self.high_price
            && self.low_price <= self.close_price && self.close_price <= self.high_price
    }
}

} // verus!
