//! The trade ledger: opened and closed positions, fees, running capital and
//! the capital-floor stop rule.
use vstd::prelude::*;
use crate::enums::OrderSide;
use crate::{MAX_PRICE, RATE_SCALE, SCALE};

verus! {

/// The largest running capital, in fixed-point units, that the ledger trades
/// with. A close that carries the capital beyond it is booked in full, and the
/// ledger then stops with its `overflowed` flag set.
pub const MAX_CAPITAL: u64 = 0x100_0000_0000_0000;

/// Starting capital of a ledger made by `TradeRecord::new`: 1000 whole units.
pub const DEFAULT_CAPITAL: u64 = 100_000_000_000;

/// Capital floor of a ledger made by `TradeRecord::new`: 1 whole unit.
pub const DEFAULT_FLOOR: u64 = 100_000_000;

/// A percentage is stored as hundredths of a percent: `10_000` is 100%.
pub const PERCENT_SCALE: u64 = 100;

/// An upper bound on the fee of one trade (entry and leave fee together).
pub open spec fn fee_bound() -> int {
    0x8000_0000_0000_0000
}

/// A lower bound on the running capital, reached at worst by a losing trade.
pub open spec fn capital_lower_bound() -> int {
    -0x8000_0000_0000_0000_0000_0000_0000
}

/// An upper bound on the running capital, reached at worst by a winning trade.
pub open spec fn capital_upper_bound() -> int {
    0x8000_0000_0000_0000_0000_0000_0000
}

/// One trade. Created open by `entry`, finalized by `leave`.
#[derive(Debug, Clone, Copy, PartialEq, Eq, Structural)]
pub struct TradeItem {
    pub entry_time: i64,
    pub leave_time: Option<i64>,
    pub entry_price: u64,
    pub leave_price: Option<u64>,
    /// The running capital when the trade was opened.
    pub quantity: u64,
    pub side: OrderSide,
    /// Size of the price move, in fixed-point units of a percent.
    pub price_percent: Option<u128>,
    pub profit: Option<i128>,
    pub real_profit: Option<i128>,
    /// The entry fee while the trade is open; entry plus leave fee once closed.
    pub fee: i128,
}

/// Fee on `capital` at `rate`.
pub open spec fn fee_of(capital: int, rate: u32) -> int {
    capital * rate / RATE_SCALE as int
}

/// Profit before fees of a position of `capital` opened at `entry` and closed
/// at `price`; its magnitude is rounded toward zero.
pub open spec fn gross_profit(side: OrderSide, entry: u64, price: u64, capital: int) -> int {
    let mv = if price >= entry { price - entry } else { entry - price };
    let g = mv * capital / entry as int;
    let favourable = match side {
        OrderSide::Buy => price >= entry,
        OrderSide::Sell => price <= entry,
    };
    if favourable { g } else { -g }
}

/// `|price - entry| / entry * 100` in fixed-point units.
pub open spec fn move_percent(entry: u64, price: u64) -> int {
    let mv = if price >= entry { price - entry } else { entry - price };
    mv * 100 * SCALE / entry as int
}

impl TradeItem {
    pub open spec fn is_finalized(&self) -> bool {
        self.leave_time is Some
    }

    pub open spec fn realized(&self) -> int {
        match self.real_profit {
            Some(p) => p as int,
            None => 0,
        }
    }

    pub open spec fn wf(&self) -> bool {
        &&& 0 < self.entry_price <= MAX_PRICE
        &&& 0 < self.quantity <= MAX_CAPITAL
        &&& 0 <= self.fee <= fee_bound()
        &&& self.leave_price is Some <==> self.is_finalized()
        &&& self.profit is Some <==> self.is_finalized()
        &&& self.real_profit is Some <==> self.is_finalized()
        &&& self.price_percent is Some <==> self.is_finalized()
    }
}

/// The record that `entry` appends.
pub open spec fn opened_item(
    timestamp: i64,
    price: u64,
    side: OrderSide,
    capital: int,
    entry_rate: u32,
) -> TradeItem {
    TradeItem {
        entry_time: timestamp,
        leave_time: None,
        entry_price: price,
        leave_price: None,
        quantity: capital as u64,
        side,
        price_percent: None,
        profit: None,
        real_profit: None,
        fee: fee_of(capital, entry_rate) as i128,
    }
}

/// The record that `leave` makes of the open one.
pub open spec fn closed_item(
    item: TradeItem,
    timestamp: i64,
    price: u64,
    leave_rate: u32,
) -> TradeItem {
    let profit = gross_profit(item.side, item.entry_price, price, item.quantity as int);
    let fee = item.fee + fee_of(item.quantity as int, leave_rate);
    TradeItem {
        leave_time: Some(timestamp),
        leave_price: Some(price),
        price_percent: Some(move_percent(item.entry_price, price) as u128),
        profit: Some(profit as i128),
        real_profit: Some((profit - fee) as i128),
        fee: fee as i128,
        ..item
    }
}

/// Sum of `real_profit` over the finalized records.
pub open spec fn sum_real(s: Seq<TradeItem>) -> int
    decreases s.len(),
{
    if s.len() == 0 {
        0
    } else {
        sum_real(s.drop_last()) + s.last().realized()
    }
}

/// Sum of the fees of all records.
pub open spec fn sum_fees(s: Seq<TradeItem>) -> int
    decreases s.len(),
{
    if s.len() == 0 {
        0
    } else {
        sum_fees(s.drop_last()) + s.last().fee
    }
}

/// Number of records with a positive `real_profit`.
pub open spec fn count_wins(s: Seq<TradeItem>) -> nat
    decreases s.len(),
{
    if s.len() == 0 {
        0
    } else {
        count_wins(s.drop_last()) + if s.last().realized() > 0 { 1nat } else { 0nat }
    }
}

/// Number of records with a negative `real_profit`.
pub open spec fn count_losses(s: Seq<TradeItem>) -> nat
    decreases s.len(),
{
    if s.len() == 0 {
        0
    } else {
        count_losses(s.drop_last()) + if s.last().realized() < 0 { 1nat } else { 0nat }
    }
}

/// Division of `a` by a positive `b`, rounded toward zero.
pub open spec fn div_trunc(a: int, b: int) -> int {
    if a >= 0 { a / b } else { -((-a) / b) }
}

/// Aggregate figures of a ledger.
#[derive(Debug, Clone, Copy, PartialEq, Eq, Structural)]
pub struct Report {
    pub trade_count: usize,
    pub win_count: usize,
    pub loss_count: usize,
    pub final_capital: i128,
    /// Winning trades over all trades, in hundredths of a percent; 0 without trades.
    pub win_rate: u64,
    /// Total real profit over the starting capital, in hundredths of a percent.
    pub return_percent: i128,
    pub total_fees: i128,
}

/// The report of the ledger `l`.
pub open spec fn report_of(l: TradeRecord) -> Report {
    let n = l.records@.len();
    Report {
        trade_count: n as usize,
        win_count: count_wins(l.records@) as usize,
        loss_count: count_losses(l.records@) as usize,
        final_capital: l.money,
        win_rate: (if n == 0 {
            0
        } else {
            count_wins(l.records@) * (100 * PERCENT_SCALE) / n as int
        }) as u64,
        return_percent: div_trunc(
            sum_real(l.records@) * (100 * PERCENT_SCALE),
            l.initial_money as int,
        ) as i128,
        total_fees: sum_fees(l.records@) as i128,
    }
}

/// Running capital, trades and fee rates of one backtest run.
pub struct TradeRecord {
    pub records: Vec<TradeItem>,
    pub entry_fee_percent: u32,
    pub leave_fee_percent: u32,
    pub money: i128,
    pub initial_money: u64,
    pub capital_floor: u64,
    /// Set when a close left the capital at or below the floor.
    pub halted: bool,
    /// Set when a close left the capital above `MAX_CAPITAL`.
    pub overflowed: bool,
}

impl TradeRecord {
    /// Whether the last record is still open.
    pub open spec fn has_open(&self) -> bool {
        self.records@.len() > 0 && !self.records@.last().is_finalized()
    }

    /// Whether the ledger has stopped trading for good.
    pub open spec fn stopped(&self) -> bool {
        self.halted || self.overflowed
    }

    pub open spec fn wf(&self) -> bool {
        &&& 0 < self.initial_money <= MAX_CAPITAL
        &&& forall|i: int| 0 <= i < self.records@.len() ==> (#[trigger] self.records@[i]).wf()
        &&& forall|i: int|
            0 <= i < self.records@.len() - 1 ==> (#[trigger] self.records@[i]).is_finalized()
        &&& self.money == self.initial_money + sum_real(self.records@)
        &&& capital_lower_bound() <= self.money <= capital_upper_bound()
        &&& !self.stopped() ==> 0 < self.money <= MAX_CAPITAL
        &&& self.halted ==> self.money <= self.capital_floor
        &&& self.overflowed ==> self.money > MAX_CAPITAL
        &&& self.stopped() ==> !self.has_open()
        &&& self.has_open() ==> self.records@.last().quantity == self.money
        &&& self.has_open() ==> self.records@.last().fee < fee_bound() / 2
    }

    /// A ledger with no trades, the given starting capital and floor, and no fees.
    pub fn with_capital(initial: u64, floor: u64) -> (r: TradeRecord)
        requires
            0 < initial <= MAX_CAPITAL,
        ensures
            r.wf(),
            r.records@ == Seq::<TradeItem>::empty(),
            r.money == initial,
            r.initial_money == initial,
            r.capital_floor == floor,
            r.entry_fee_percent == 0,
            r.leave_fee_percent == 0,
            !r.halted,
            !r.overflowed,
    {
        TradeRecord {
            records: Vec::new(),
            entry_fee_percent: 0,
            leave_fee_percent: 0,
            money: initial as i128,
            initial_money: initial,
            capital_floor: floor,
            halted: false,
            overflowed: false,
        }
    }

    /// A ledger with 1000 units of capital, a floor of 1 unit and no fees.
    pub fn new() -> (r: TradeRecord)
        ensures
            r.wf(),
            r.records@ == Seq::<TradeItem>::empty(),
            r.money == DEFAULT_CAPITAL,
            r.initial_money == DEFAULT_CAPITAL,
            r.capital_floor == DEFAULT_FLOOR,
            r.entry_fee_percent == 0,
            r.leave_fee_percent == 0,
            !r.halted,
            !r.overflowed,
    {
        TradeRecord::with_capital(DEFAULT_CAPITAL, DEFAULT_FLOOR)
    }

    pub fn set_entry_fee_percent(&mut self, percent: u32)
        requires
            old(self).wf(),
        ensures
            final(self).wf(),
            *final(self) == (TradeRecord { entry_fee_percent: percent, ..*old(self) }),
    {
        self.entry_fee_percent = percent;
    }

    pub fn set_leave_fee_percent(&mut self, percent: u32)
        requires
            old(self).wf(),
        ensures
            final(self).wf(),
            *final(self) == (TradeRecord { leave_fee_percent: percent, ..*old(self) }),
    {
        self.leave_fee_percent = percent;
    }

    /// Whether `entry` would open a trade now.
    pub open spec fn can_enter(&self) -> bool {
        !self.stopped() && !self.has_open()
    }

    pub fn is_halted(&self) -> (r: bool)
        ensures
            r == self.halted,
    {
        self.halted
    }

    pub fn is_stopped(&self) -> (r: bool)
        ensures
            r == self.stopped(),
    {
        self.halted || self.overflowed
    }

    pub fn has_open_trade(&self) -> (r: bool)
        requires
            self.wf(),
        ensures
            r == self.has_open(),
    {
        let n = self.records.len();
        n > 0 && self.records[n - 1].leave_time.is_none()
    }

    /// Opens a trade at `price` with the whole running capital and charges the
    /// entry fee on the record; the capital itself changes only on `leave`.
    /// Nothing happens while a trade is open or after the ledger stopped.
    pub fn entry(&mut self, timestamp: i64, price: u64, side: OrderSide)
        requires
            old(self).wf(),
            0 < price <= MAX_PRICE,
        ensures
            final(self).wf(),
            old(self).can_enter() ==> final(self).records@ == old(self).records@.push(
                opened_item(timestamp, price, side, old(self).money as int, old(self).entry_fee_percent),
            ),
            !old(self).can_enter() ==> final(self).records@ == old(self).records@,
            final(self).money == old(self).money,
            final(self).halted == old(self).halted,
            final(self).overflowed == old(self).overflowed,
            final(self).initial_money == old(self).initial_money,
            final(self).capital_floor == old(self).capital_floor,
            final(self).entry_fee_percent == old(self).entry_fee_percent,
            final(self).leave_fee_percent == old(self).leave_fee_percent,
    {
        if self.halted || self.overflowed || self.has_open_trade() {
            return;
        }
        let capital = self.money as u64;
        let fee = TradeRecord::fee(capital, self.entry_fee_percent);
        let item = TradeItem {
            entry_time: timestamp,
            leave_time: None,
            entry_price: price,
            leave_price: None,
            quantity: capital,
            side,
            price_percent: None,
            profit: None,
            real_profit: None,
            fee,
        };
        let ghost before = self.records@;
        self.records.push(item);
        proof {
            assert(self.records@.drop_last() =~= before);
            assert forall|i: int| 0 <= i < self.records@.len() - 1 implies
                (#[trigger] self.records@[i]).is_finalized() by {
                assert(self.records@[i] == before[i]);
                if i < before.len() - 1 {
                    assert(before[i].is_finalized());
                } else {
                    assert(before.len() == 0 || before.last().is_finalized());
                }
            }
        }
    }

    fn fee(capital: u64, rate: u32) -> (r: i128)
        requires
            0 < capital <= MAX_CAPITAL,
        ensures
            r == fee_of(capital as int, rate),
            0 <= r < fee_bound() / 2,
    {
        assert(capital * rate <= MAX_CAPITAL * 0xFFFF_FFFF) by (nonlinear_arith)
            requires capital <= MAX_CAPITAL, rate <= 0xFFFF_FFFF;
        let prod: u128 = capital as u128 * rate as u128;
        proof {
            vstd::arithmetic::div_mod::lemma_div_is_ordered(
                prod as int, MAX_CAPITAL * 0xFFFF_FFFF, RATE_SCALE as int);
        }
        (prod / RATE_SCALE as u128) as i128
    }

    /// Closes the open trade at `price`: its profit, total fee, real profit and
    /// price move are recorded and the real profit is added to the running
    /// capital. When the capital is then at or below the floor the ledger halts
    /// for good; when it is above `MAX_CAPITAL` the ledger stops with
    /// `overflowed` set. Nothing happens when no trade is open.
    pub fn leave(&mut self, timestamp: i64, price: u64)
        requires
            old(self).wf(),
            price <= MAX_PRICE,
        ensures
            final(self).wf(),
            old(self).has_open() ==> {
                let closed = closed_item(
                    old(self).records@.last(), timestamp, price,
                    old(self).leave_fee_percent,
                );
                &&& final(self).records@ == old(self).records@.update(
                    old(self).records@.len() - 1, closed)
                &&& final(self).money == old(self).money + closed.realized()
                &&& final(self).halted == (final(self).money <= old(self).capital_floor)
                &&& final(self).overflowed == (final(self).money > MAX_CAPITAL)
            },
            !old(self).has_open() ==> *final(self) == *old(self),
            final(self).initial_money == old(self).initial_money,
            final(self).capital_floor == old(self).capital_floor,
            final(self).entry_fee_percent == old(self).entry_fee_percent,
            final(self).leave_fee_percent == old(self).leave_fee_percent,
    {
        if !self.has_open_trade() {
            return;
        }
        let last = self.records.len() - 1;
        let item = self.records[last];
        let entry = item.entry_price;
        let q = item.quantity;
        let mv: u64 = if price >= entry { price - entry } else { entry - price };
        assert(mv * q <= MAX_PRICE * MAX_CAPITAL) by (nonlinear_arith)
            requires mv <= MAX_PRICE, q <= MAX_CAPITAL;
        let prod: u128 = mv as u128 * q as u128;
        let g: u128 = prod / entry as u128;
        proof {
            vstd::arithmetic::div_mod::lemma_div_is_ordered_by_denominator(prod as int, 1, entry as int);
            assert(prod as int / 1 == prod);
            assert(g <= MAX_PRICE * MAX_CAPITAL);
        }
        let favourable = match item.side {
            OrderSide::Buy => price >= entry,
            OrderSide::Sell => price <= entry,
        };
        let profit: i128 = if favourable { g as i128 } else { -(g as i128) };
        let leave_fee = TradeRecord::fee(q, self.leave_fee_percent);
        let fee: i128 = item.fee + leave_fee;
        let realized: i128 = profit - fee;
        assert(mv * 100 * SCALE <= MAX_PRICE * 100 * SCALE) by (nonlinear_arith)
            requires mv <= MAX_PRICE;
        let pct: u128 = mv as u128 * 100 * SCALE as u128 / entry as u128;
        let closed = TradeItem {
            leave_time: Some(timestamp),
            leave_price: Some(price),
            price_percent: Some(pct),
            profit: Some(profit),
            real_profit: Some(realized),
            fee,
            ..item
        };
        let ghost before = self.records@;
        self.records.set(last, closed);
        self.money = self.money + realized;
        if self.money <= self.capital_floor as i128 {
            self.halted = true;
        }
        if self.money > MAX_CAPITAL as i128 {
            self.overflowed = true;
        }
        proof {
            assert(self.records@.drop_last() =~= before.drop_last());
            assert(closed == closed_item(before.last(), timestamp, price,
                self.leave_fee_percent));
            assert forall|i: int| 0 <= i < self.records@.len() implies
                (#[trigger] self.records@[i]).wf() by {
                if i < last {
                    assert(self.records@[i] == before[i]);
                } else {
                    assert(before[i].wf());
                    assert(self.records@[i] == closed);
                }
            }
            assert forall|i: int| 0 <= i < self.records@.len() - 1 implies
                (#[trigger] self.records@[i]).is_finalized() by {
                assert(self.records@[i] == before[i]);
            }
            assert(sum_real(before) == sum_real(before.drop_last()));
            assert(sum_real(self.records@) == sum_real(before.drop_last()) + closed.realized());
            assert(self.money == self.initial_money + sum_real(self.records@));
            assert(old(self).money > 0);
            assert(realized >= -(MAX_PRICE * MAX_CAPITAL) - fee_bound());
            assert(realized <= MAX_PRICE * MAX_CAPITAL);
        }
    }

    pub fn get_records(&self) -> (r: &Vec<TradeItem>)
        ensures
            r@ == self.records@,
    {
        &self.records
    }

    /// Trade count, wins and losses by the sign of `real_profit`, final
    /// capital, win rate, return on the starting capital and total fees.
    pub fn get_report(&self) -> (r: Report)
        requires
            self.wf(),
        ensures
            r == report_of(*self),
    {
        let n = self.records.len();
        let mut wins: usize = 0;
        let mut losses: usize = 0;
        let mut fees: i128 = 0;
        let mut i: usize = 0;
        while i < n
            invariant
                self.wf(),
                n == self.records@.len(),
                0 <= i <= n,
                wins == count_wins(self.records@.subrange(0, i as int)),
                losses == count_losses(self.records@.subrange(0, i as int)),
                fees == sum_fees(self.records@.subrange(0, i as int)),
                wins <= i,
                losses <= i,
                0 <= fees <= i * fee_bound(),
            decreases n - i,
        {
            let ghost pre = self.records@.subrange(0, i as int);
            let item = &self.records[i];
            proof {
                assert(self.records@.subrange(0, i + 1).drop_last() =~= pre);
                assert(self.records@[i as int].wf());
            }
            match item.real_profit {
                Some(p) => {
                    if p > 0 {
                        wins = wins + 1;
                    } else if p < 0 {
                        losses = losses + 1;
                    }
                },
                None => {},
            }
            fees = fees + item.fee;
            i = i + 1;
        }
        proof {
            assert(self.records@.subrange(0, n as int) =~= self.records@);
        }
        let win_rate: u64 = if n == 0 {
            0
        } else {
            assert(wins * 10_000 <= n * 10_000) by (nonlinear_arith) requires wins <= n;
            proof {
                vstd::arithmetic::div_mod::lemma_div_is_ordered(
                    (wins * 10_000) as int, (n * 10_000) as int, n as int);
                vstd::arithmetic::div_mod::lemma_div_multiples_vanish(10_000, n as int);
            }
            ((wins as u128 * 10_000) / n as u128) as u64
        };
        let gain: i128 = self.money - self.initial_money as i128;
        let ret: i128 = if gain >= 0 {
            ((gain * 10_000) / self.initial_money as i128)
        } else {
            -(((-gain) * 10_000) / self.initial_money as i128)
        };
        Report {
            trade_count: n,
            win_count: wins,
            loss_count: losses,
            final_capital: self.money,
            win_rate,
            return_percent: ret,
            total_fees: fees,
        }
    }
}

} // verus!
