//! The three-candle pattern strategy: a window of recent candles, EMA and RSI
//! filters, entry and exit decisions, and the ledger that records the trades.
use vstd::prelude::*;
use std::collections::VecDeque;
use crate::enums::OrderSide;
use crate::indicator::{Ema, Rsi, ema_after, ema_step, gain_of, loss_of, rsi_state_after, rsi_value, wilder_step};
use crate::kline::KLine;
use crate::ledger::{MAX_CAPITAL, TradeRecord, closed_item, opened_item};
use crate::{MAX_PRICE, RATE_SCALE};

verus! {

/// Number of recent candles that the strategy keeps.
pub const WINDOW_CAPACITY: usize = 10;

/// Indicator periods and RSI thresholds (on the RSI scale).
#[derive(Debug, Clone, Copy, PartialEq, Eq, Structural)]
pub struct StrategyParams {
    pub ema_period: u32,
    pub rsi_period: u32,
    pub rsi_top: u64,
    pub rsi_bottom: u64,
    pub rsi_over_bought: u64,
    pub rsi_over_sell: u64,
    pub ignore_rsi: bool,
}

/// Target prices of the open position, fixed when it was opened.
#[derive(Debug, Clone, Copy, PartialEq, Eq, Structural)]
pub struct Position {
    pub side: OrderSide,
    pub take_profit: i64,
    pub stop_loss: i64,
}

/// All three newest candles (newest first) closed above their open.
pub open spec fn is_bullish(w: Seq<KLine>) -> bool {
    &&& w[2].close_price > w[2].open_price
    &&& w[1].close_price > w[1].open_price
    &&& w[0].close_price > w[0].open_price
}

/// All three newest candles (newest first) closed below their open.
pub open spec fn is_bearish(w: Seq<KLine>) -> bool {
    &&& w[2].close_price < w[2].open_price
    &&& w[1].close_price < w[1].open_price
    &&& w[0].close_price < w[0].open_price
}

/// Net move across the three newest candles: `|close[0] - open[2]|`.
pub open spec fn d_value(w: Seq<KLine>) -> int {
    let a = w[0].close_price as int;
    let b = w[2].open_price as int;
    if a >= b { a - b } else { b - a }
}

/// `d_value / open[2] > entry_rate + leave_rate`, without dividing.
pub open spec fn covers_fees(w: Seq<KLine>, entry_rate: u32, leave_rate: u32) -> bool {
    d_value(w) * RATE_SCALE > (entry_rate + leave_rate) * w[2].open_price
}

pub open spec fn rsi_normal(p: StrategyParams, rsi: u64) -> bool {
    p.ignore_rsi || (p.rsi_bottom < rsi && rsi < p.rsi_top)
}

pub open spec fn rsi_over_bought(p: StrategyParams, rsi: u64) -> bool {
    !p.ignore_rsi && rsi >= p.rsi_over_bought
}

pub open spec fn rsi_over_sold(p: StrategyParams, rsi: u64) -> bool {
    !p.ignore_rsi && rsi <= p.rsi_over_sell
}

/// The side to open on the window `w` (newest first), or none. Trend-following
/// entries come first, then the contrarian ones.
pub open spec fn entry_decision(
    w: Seq<KLine>,
    ema: u64,
    rsi: u64,
    p: StrategyParams,
    entry_rate: u32,
    leave_rate: u32,
) -> Option<OrderSide> {
    if w.len() < 3 || !covers_fees(w, entry_rate, leave_rate) {
        None
    } else if is_bullish(w) && w[0].close_price > ema && rsi_normal(p, rsi) {
        Some(OrderSide::Buy)
    } else if is_bearish(w) && w[0].close_price < ema && rsi_normal(p, rsi) {
        Some(OrderSide::Sell)
    } else if is_bullish(w) && w[0].close_price > ema && rsi_over_bought(p, rsi) {
        Some(OrderSide::Sell)
    } else if is_bearish(w) && w[0].close_price < ema && rsi_over_sold(p, rsi) {
        Some(OrderSide::Buy)
    } else {
        None
    }
}

/// Targets `d` away from `price`: above for take-profit of a long, below for
/// a short, and the stop-loss mirrored.
pub open spec fn targets_of(side: OrderSide, price: u64, d: int) -> Position {
    match side {
        OrderSide::Buy => Position {
            side,
            take_profit: (price + d) as i64,
            stop_loss: (price - d) as i64,
        },
        OrderSide::Sell => Position {
            side,
            take_profit: (price - d) as i64,
            stop_loss: (price + d) as i64,
        },
    }
}

/// The price at which the candle `c` closes the position: take-profit when it
/// lies strictly inside the candle's range, else stop-loss when it does.
pub open spec fn exit_price(pos: Position, c: KLine) -> Option<i64> {
    if c.low_price < pos.take_profit && pos.take_profit < c.high_price {
        Some(pos.take_profit)
    } else if c.low_price < pos.stop_loss && pos.stop_loss < c.high_price {
        Some(pos.stop_loss)
    } else {
        None
    }
}

/// The window after `c` arrives: `c` in front, the oldest dropped beyond capacity.
pub open spec fn window_after(w: Seq<KLine>, c: KLine) -> Seq<KLine> {
    let s = seq![c] + w;
    if s.len() > WINDOW_CAPACITY { s.take(WINDOW_CAPACITY as int) } else { s }
}

/// The RSI that feeding `price` to `r` gives.
pub open spec fn rsi_after(r: Rsi, price: u64) -> u64 {
    rsi_value(
        wilder_step(r.period as nat, r.avg_gain, gain_of(r.prev, price)),
        wilder_step(r.period as nat, r.avg_loss, loss_of(r.prev, price)),
    ) as u64
}

/// Checks the three newest candles of `window` (newest first) for an entry.
pub fn evaluate_entry(
    window: &VecDeque<KLine>,
    ema: u64,
    rsi: u64,
    params: &StrategyParams,
    entry_rate: u32,
    leave_rate: u32,
) -> (r: Option<OrderSide>)
    requires
        forall|i: int| 0 <= i < window@.len() ==> (#[trigger] window@[i]).wf(),
    ensures
        r == entry_decision(window@, ema, rsi, *params, entry_rate, leave_rate),
{
    if window.len() < 3 {
        return None;
    }
    let c0 = &window[0];
    let c1 = &window[1];
    let c2 = &window[2];
    let close = c0.close_price;
    let d: u64 = if close >= c2.open_price { close - c2.open_price } else { c2.open_price - close };
    assert(d * RATE_SCALE <= MAX_PRICE * RATE_SCALE) by (nonlinear_arith)
        requires d <= MAX_PRICE;
    assert((entry_rate + leave_rate) * c2.open_price <= 0x2_0000_0000 * MAX_PRICE)
        by (nonlinear_arith)
        requires entry_rate + leave_rate <= 0x2_0000_0000, c2.open_price <= MAX_PRICE;
    let lhs: u128 = d as u128 * RATE_SCALE as u128;
    let rhs: u128 = (entry_rate as u128 + leave_rate as u128) * c2.open_price as u128;
    if lhs <= rhs {
        return None;
    }
    let bullish = c2.close_price > c2.open_price && c1.close_price > c1.open_price
        && c0.close_price > c0.open_price;
    let bearish = c2.close_price < c2.open_price && c1.close_price < c1.open_price
        && c0.close_price < c0.open_price;
    let normal = params.ignore_rsi || (params.rsi_bottom < rsi && rsi < params.rsi_top);
    let over_bought = !params.ignore_rsi && rsi >= params.rsi_over_bought;
    let over_sold = !params.ignore_rsi && rsi <= params.rsi_over_sell;
    if bullish && close > ema && normal {
        Some(OrderSide::Buy)
    } else if bearish && close < ema && normal {
        Some(OrderSide::Sell)
    } else if bullish && close > ema && over_bought {
        Some(OrderSide::Sell)
    } else if bearish && close < ema && over_sold {
        Some(OrderSide::Buy)
    } else {
        None
    }
}

/// Target prices for a position opened at `price` with distance `d`.
pub fn targets(side: OrderSide, price: u64, d: u64) -> (r: Position)
    requires
        price <= MAX_PRICE,
        d <= MAX_PRICE,
    ensures
        r == targets_of(side, price, d as int),
{
    let p = price as i64;
    let e = d as i64;
    match side {
        OrderSide::Buy => Position { side, take_profit: p + e, stop_loss: p - e },
        OrderSide::Sell => Position { side, take_profit: p - e, stop_loss: p + e },
    }
}

/// The exit price that the candle `c` gives the position, if any.
pub fn evaluate_exit(pos: &Position, c: &KLine) -> (r: Option<i64>)
    ensures
        r == exit_price(*pos, *c),
{
    let low = c.low_price as i128;
    let high = c.high_price as i128;
    let tp = pos.take_profit as i128;
    let sl = pos.stop_loss as i128;
    if low < tp && tp < high {
        Some(pos.take_profit)
    } else if low < sl && sl < high {
        Some(pos.stop_loss)
    } else {
        None
    }
}

/// Whatever the RSI, with the RSI filter off the entry decision is the same.
pub proof fn lemma_ignore_rsi_never_gates(
    w: Seq<KLine>,
    ema: u64,
    rsi1: u64,
    rsi2: u64,
    p: StrategyParams,
    entry_rate: u32,
    leave_rate: u32,
)
    requires
        p.ignore_rsi,
    ensures
        entry_decision(w, ema, rsi1, p, entry_rate, leave_rate)
            == entry_decision(w, ema, rsi2, p, entry_rate, leave_rate),
{
}

/// A position is only ever closed at its take-profit or its stop-loss price.
pub proof fn lemma_exit_at_target(pos: Position, c: KLine)
    ensures
        exit_price(pos, c) matches Some(x) ==> x == pos.take_profit || x == pos.stop_loss,
{
}

/// The strategy's state: parameters, recent candles (newest first), the
/// indicators, the open position if any, and the ledger.
pub struct TripleBarStrategy {
    pub params: StrategyParams,
    pub candles: VecDeque<KLine>,
    pub ema: Ema,
    pub rsi: Rsi,
    pub position: Option<Position>,
    pub ledger: TradeRecord,
}

/// The side on which the candle `c` opens a trade, if any.
pub open spec fn entry_signal(s: TripleBarStrategy, c: KLine) -> Option<OrderSide> {
    if s.position is Some {
        None
    } else {
        entry_decision(
            window_after(s.candles@, c),
            ema_step(s.ema.period as nat, s.ema.value, c.close_price) as u64,
            rsi_after(s.rsi, c.close_price),
            s.params,
            s.ledger.entry_fee_percent,
            s.ledger.leave_fee_percent,
        )
    }
}

/// The position after the entry check on `c`.
pub open spec fn position_after_entry(s: TripleBarStrategy, c: KLine) -> Option<Position> {
    match entry_signal(s, c) {
        Some(side) => Some(targets_of(side, c.close_price, d_value(window_after(s.candles@, c)))),
        None => s.position,
    }
}

/// The exit price that `c` gives, after the entry check on `c`.
pub open spec fn exit_signal(s: TripleBarStrategy, c: KLine) -> Option<i64> {
    match position_after_entry(s, c) {
        Some(pos) => exit_price(pos, c),
        None => None,
    }
}

/// The ledger's records after the entry check on `c`.
pub open spec fn records_after_entry(s: TripleBarStrategy, c: KLine) -> Seq<crate::ledger::TradeItem> {
    match entry_signal(s, c) {
        Some(side) => s.ledger.records@.push(opened_item(
            c.close_time, c.close_price, side, s.ledger.money as int, s.ledger.entry_fee_percent)),
        None => s.ledger.records@,
    }
}

/// What one candle `c0` does to the strategy state `s0`, giving `t`.
#[verifier::opaque]
pub open spec fn next_state(s: TripleBarStrategy, c: KLine, t: TripleBarStrategy) -> bool {
    &&& t.wf()
    &&& s.ledger.stopped() ==> t == s
    &&& !s.ledger.stopped() ==> {
        let recs = records_after_entry(s, c);
        &&& t.params == s.params
        &&& t.candles@ == window_after(s.candles@, c)
        &&& t.ema.value == Some(
            ema_step(s.ema.period as nat, s.ema.value, c.close_price) as u64)
        &&& t.rsi.prev == Some(c.close_price)
        &&& t.rsi.avg_gain as nat == wilder_step(
            s.rsi.period as nat, s.rsi.avg_gain, gain_of(s.rsi.prev, c.close_price))
        &&& t.rsi.avg_loss as nat == wilder_step(
            s.rsi.period as nat, s.rsi.avg_loss, loss_of(s.rsi.prev, c.close_price))
        &&& match exit_signal(s, c) {
            Some(px) => {
                let closed = closed_item(
                    recs.last(), c.close_time, px as u64,
                    s.ledger.leave_fee_percent);
                &&& t.position is None
                &&& t.ledger.records@ == recs.update(recs.len() - 1, closed)
                &&& t.ledger.money == s.ledger.money + closed.realized()
                &&& t.ledger.halted
                    == (t.ledger.money <= s.ledger.capital_floor)
                &&& t.ledger.overflowed == (t.ledger.money > MAX_CAPITAL)
            },
            None => {
                &&& t.position == position_after_entry(s, c)
                &&& t.ledger.records@ == recs
                &&& t.ledger.money == s.ledger.money
                &&& !t.ledger.stopped()
            },
        }
        &&& t.ledger.initial_money == s.ledger.initial_money
        &&& t.ledger.capital_floor == s.ledger.capital_floor
        &&& t.ledger.entry_fee_percent == s.ledger.entry_fee_percent
        &&& t.ledger.leave_fee_percent == s.ledger.leave_fee_percent
    }
}

impl TripleBarStrategy {
    pub open spec fn wf(&self) -> bool {
        &&& self.ema.wf()
        &&& self.rsi.wf()
        &&& self.ledger.wf()
        &&& self.ema.period == self.params.ema_period
        &&& self.rsi.period == self.params.rsi_period
        &&& self.candles@.len() <= WINDOW_CAPACITY
        &&& forall|i: int| 0 <= i < self.candles@.len() ==> (#[trigger] self.candles@[i]).wf()
        &&& (self.position is Some <==> self.ledger.has_open())
    }

    pub fn new(params: StrategyParams, ledger: TradeRecord) -> (r: TripleBarStrategy)
        requires
            params.ema_period > 0,
            params.rsi_period > 0,
            ledger.wf(),
            !ledger.has_open(),
        ensures
            r.wf(),
            r.params == params,
            r.candles@.len() == 0,
            r.ema.value is None,
            r.rsi.prev is None,
            r.rsi.avg_gain == 0,
            r.rsi.avg_loss == 0,
            r.position is None,
            r.ledger == ledger,
    {
        TripleBarStrategy {
            params,
            candles: VecDeque::new(),
            ema: Ema::new(params.ema_period),
            rsi: Rsi::new(params.rsi_period),
            position: None,
            ledger,
        }
    }

    /// Primes the indicators with historical closes, oldest first, before the
    /// live stream begins; the window, position and ledger are untouched.
    pub fn warm_up(&mut self, closes: &Vec<u64>)
        requires
            old(self).wf(),
            forall|i: int| 0 <= i < closes@.len() ==> closes@[i] <= MAX_PRICE,
        ensures
            final(self).wf(),
            final(self).ema.value == ema_after(old(self).ema.period as nat, old(self).ema.value, closes@),
            final(self).rsi == rsi_state_after(old(self).rsi, closes@),
            final(self).ema.period == old(self).ema.period,
            final(self).params == old(self).params,
            final(self).candles@ == old(self).candles@,
            final(self).position == old(self).position,
            final(self).ledger == old(self).ledger,
    {
        let n = closes.len();
        let mut i: usize = 0;
        while i < n
            invariant
                self.wf(),
                0 <= i <= n == closes@.len(),
                forall|j: int| 0 <= j < closes@.len() ==> closes@[j] <= MAX_PRICE,
                self.ema.value == ema_after(old(self).ema.period as nat, old(self).ema.value, closes@.take(i as int)),
                self.rsi == rsi_state_after(old(self).rsi, closes@.take(i as int)),
                self.ema.period == old(self).ema.period,
                self.params == old(self).params,
                self.candles@ == old(self).candles@,
                self.position == old(self).position,
                self.ledger == old(self).ledger,
            decreases n - i,
        {
            proof {
                assert(closes@.take(i + 1).drop_last() =~= closes@.take(i as int));
            }
            self.ema.next(closes[i]);
            self.rsi.next(closes[i]);
            i = i + 1;
        }
        proof {
            assert(closes@.take(n as int) =~= closes@);
        }
    }

    /// Processes one candle, as `next_state` describes.
    #[verifier::rlimit(60)]
    pub fn on_market_data(&mut self, candle: &KLine)
        requires
            old(self).wf(),
            candle.wf(),
        ensures
            next_state(*old(self), *candle, *final(self)),
            final(self).wf(),
            final(self).params == old(self).params,
            final(self).ledger.initial_money == old(self).ledger.initial_money,
            final(self).ledger.capital_floor == old(self).ledger.capital_floor,
    {
        if self.ledger.is_stopped() {
            proof {
                reveal(next_state);
            }
            return;
        }
        let ghost s = *old(self);
        let close = candle.close_price;
        let ema_v = self.ema.peek(close);
        let (_, _, rsi_v) = self.rsi.peek(close);

        self.candles.push_front(*candle);
        if self.candles.len() > WINDOW_CAPACITY {
            self.candles.truncate(WINDOW_CAPACITY);
        }
        proof {
            assert(self.candles@ =~= window_after(s.candles@, *candle));
            assert forall|i: int| 0 <= i < self.candles@.len() implies
                (#[trigger] self.candles@[i]).wf() by {
                if i > 0 {
                    assert(self.candles@[i] == s.candles@[i - 1]);
                }
            }
        }

        if self.position.is_none() {
            let decision = evaluate_entry(
                &self.candles, ema_v, rsi_v, &self.params,
                self.ledger.entry_fee_percent, self.ledger.leave_fee_percent);
            if let Some(side) = decision {
                let open2 = self.candles[2].open_price;
                let d: u64 = if close >= open2 { close - open2 } else { open2 - close };
                self.position = Some(targets(side, close, d));
                self.ledger.entry(candle.close_time, close, side);
            }
        }

        if let Some(pos) = self.position {
            if let Some(px) = evaluate_exit(&pos, candle) {
                self.ledger.leave(candle.close_time, px as u64);
                self.position = None;
            }
        }

        self.ema.next(close);
        self.rsi.next(close);
        proof {
            reveal(next_state);
        }
    }
}

} // verus!
