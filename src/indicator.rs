//! Incremental exponential moving average and Wilder relative strength index.
use vstd::prelude::*;
use crate::{MAX_PRICE, RSI_SCALE};

verus! {

/// One EMA update: the first price seeds the average, later ones are blended in
/// with weight `2 / (period + 1)`.
pub open spec fn ema_step(period: nat, prev: Option<u64>, price: u64) -> nat {
    match prev {
        None => price as nat,
        Some(e) => ((2 * price + (period - 1) * e) / (period + 1) as int) as nat,
    }
}

/// Wilder smoothing of a running average with factor `1 / period`.
pub open spec fn wilder_step(period: nat, avg: u64, sample: nat) -> nat {
    ((avg * (period - 1) + sample) / period as int) as nat
}

/// Upward move from `prev` to `price`; zero for the first price.
pub open spec fn gain_of(prev: Option<u64>, price: u64) -> nat {
    match prev {
        Some(p) if price > p => (price - p) as nat,
        _ => 0,
    }
}

/// Downward move from `prev` to `price`; zero for the first price.
pub open spec fn loss_of(prev: Option<u64>, price: u64) -> nat {
    match prev {
        Some(p) if price < p => (p - price) as nat,
        _ => 0,
    }
}

/// `100 - 100 / (1 + gain / loss)` on the RSI scale, with a zero average loss
/// giving the top of the scale.
pub open spec fn rsi_value(avg_gain: nat, avg_loss: nat) -> nat {
    if avg_loss == 0 {
        RSI_SCALE as nat
    } else {
        (RSI_SCALE * avg_gain / (avg_gain + avg_loss) as int) as nat
    }
}

proof fn lemma_weighted_avg_bounded(w: int, a: int, x: int, b: int, bound: int)
    requires
        0 <= a <= bound,
        0 <= b <= bound,
        0 <= x <= w,
        w > 0,
    ensures
        0 <= (x * a + (w - x) * b) / w <= bound,
{
    assert(0 <= x * a <= x * bound) by (nonlinear_arith)
        requires 0 <= a <= bound, 0 <= x;
    assert(0 <= (w - x) * b <= (w - x) * bound) by (nonlinear_arith)
        requires 0 <= b <= bound, x <= w;
    assert(x * bound + (w - x) * bound == w * bound) by (nonlinear_arith);
    vstd::arithmetic::div_mod::lemma_div_is_ordered(x * a + (w - x) * b, w * bound, w);
    vstd::arithmetic::div_mod::lemma_div_multiples_vanish(bound, w);
    vstd::arithmetic::div_mod::lemma_div_pos_is_pos(x * a + (w - x) * b, w);
}

/// Exponential moving average over a stream of prices.
pub struct Ema {
    pub period: u32,
    pub value: Option<u64>,
}

impl Ema {
    pub open spec fn wf(&self) -> bool {
        &&& self.period > 0
        &&& match self.value {
            Some(e) => e <= MAX_PRICE,
            None => true,
        }
    }

    pub fn new(period: u32) -> (r: Ema)
        requires
            period > 0,
        ensures
            r.wf(),
            r.period == period,
            r.value is None,
    {
        Ema { period, value: None }
    }

    /// The average that feeding `price` would produce, without feeding it.
    pub fn peek(&self, price: u64) -> (r: u64)
        requires
            self.wf(),
            price <= MAX_PRICE,
        ensures
            r as nat == ema_step(self.period as nat, self.value, price),
            r <= MAX_PRICE,
    {
        match self.value {
            None => price,
            Some(e) => {
                let n = self.period as u128;
                assert((n - 1) * (e as u128) <= 0x1_0000_0000 * MAX_PRICE) by (nonlinear_arith)
                    requires n - 1 < 0x1_0000_0000, e <= MAX_PRICE;
                let num: u128 = 2 * (price as u128) + (n - 1) * (e as u128);
                proof {
                    lemma_weighted_avg_bounded(
                        (n + 1) as int, price as int, 2, e as int, MAX_PRICE as int);
                    assert(2 * price + (n + 1 - 2) * e == num);
                }
                (num / (n + 1)) as u64
            },
        }
    }

    /// Feeds one price and returns the new average.
    pub fn next(&mut self, price: u64) -> (r: u64)
        requires
            old(self).wf(),
            price <= MAX_PRICE,
        ensures
            final(self).wf(),
            final(self).period == old(self).period,
            r as nat == ema_step(old(self).period as nat, old(self).value, price),
            final(self).value == Some(r),
    {
        let r = self.peek(price);
        self.value = Some(r);
        r
    }
}

/// Wilder relative strength index over a stream of prices.
pub struct Rsi {
    pub period: u32,
    pub prev: Option<u64>,
    pub avg_gain: u64,
    pub avg_loss: u64,
}

impl Rsi {
    pub open spec fn wf(&self) -> bool {
        &&& self.period > 0
        &&& self.avg_gain <= MAX_PRICE
        &&& self.avg_loss <= MAX_PRICE
        &&& match self.prev {
            Some(p) => p <= MAX_PRICE,
            None => true,
        }
    }

    pub fn new(period: u32) -> (r: Rsi)
        requires
            period > 0,
        ensures
            r.wf(),
            r.period == period,
            r.prev is None,
            r.avg_gain == 0,
            r.avg_loss == 0,
    {
        Rsi { period, prev: None, avg_gain: 0, avg_loss: 0 }
    }

    fn smooth(period: u32, avg: u64, sample: u64) -> (r: u64)
        requires
            period > 0,
            avg <= MAX_PRICE,
            sample <= MAX_PRICE,
        ensures
            r as nat == wilder_step(period as nat, avg, sample as nat),
            r <= MAX_PRICE,
    {
        let n = period as u128;
        assert((avg as u128) * (n - 1) <= MAX_PRICE * 0x1_0000_0000) by (nonlinear_arith)
            requires n - 1 < 0x1_0000_0000, avg <= MAX_PRICE;
        let num: u128 = (avg as u128) * (n - 1) + sample as u128;
        proof {
            lemma_weighted_avg_bounded(n as int, sample as int, 1, avg as int, MAX_PRICE as int);
            assert(1 * sample + (n - 1) * avg == num) by (nonlinear_arith)
                requires num == avg * (n - 1) + sample;
        }
        (num / n) as u64
    }

    /// The averages and RSI value that feeding `price` would produce, without
    /// feeding it.
    pub fn peek(&self, price: u64) -> (r: (u64, u64, u64))
        requires
            self.wf(),
            price <= MAX_PRICE,
        ensures
            r.0 as nat == wilder_step(self.period as nat, self.avg_gain, gain_of(self.prev, price)),
            r.1 as nat == wilder_step(self.period as nat, self.avg_loss, loss_of(self.prev, price)),
            r.2 as nat == rsi_value(r.0 as nat, r.1 as nat),
            r.0 <= MAX_PRICE,
            r.1 <= MAX_PRICE,
            r.2 <= RSI_SCALE,
    {
        let (gain, loss): (u64, u64) = match self.prev {
            Some(p) => if price > p {
                (price - p, 0)
            } else {
                (0, p - price)
            },
            None => (0, 0),
        };
        let g = Rsi::smooth(self.period, self.avg_gain, gain);
        let l = Rsi::smooth(self.period, self.avg_loss, loss);
        let v = if l == 0 {
            RSI_SCALE
        } else {
            let num: u128 = (RSI_SCALE as u128) * (g as u128);
            let den: u128 = g as u128 + l as u128;
            proof {
                assert(RSI_SCALE * g <= RSI_SCALE * den) by (nonlinear_arith)
                    requires g <= den;
                vstd::arithmetic::div_mod::lemma_div_is_ordered(
                    num as int, (RSI_SCALE * den) as int, den as int);
                vstd::arithmetic::div_mod::lemma_div_multiples_vanish(RSI_SCALE as int, den as int);
            }
            (num / den) as u64
        };
        (g, l, v)
    }

    /// Feeds one price and returns the new RSI value.
    pub fn next(&mut self, price: u64) -> (r: u64)
        requires
            old(self).wf(),
            price <= MAX_PRICE,
        ensures
            final(self).wf(),
            final(self).period == old(self).period,
            final(self).prev == Some(price),
            final(self).avg_gain as nat == wilder_step(
                old(self).period as nat, old(self).avg_gain, gain_of(old(self).prev, price)),
            final(self).avg_loss as nat == wilder_step(
                old(self).period as nat, old(self).avg_loss, loss_of(old(self).prev, price)),
            r as nat == rsi_value(final(self).avg_gain as nat, final(self).avg_loss as nat),
            r <= RSI_SCALE,
    {
        let (g, l, v) = self.peek(price);
        self.avg_gain = g;
        self.avg_loss = l;
        self.prev = Some(price);
        v
    }
}

/// The average after feeding `ps` in order, starting from `prev`.
pub open spec fn ema_after(period: nat, prev: Option<u64>, ps: Seq<u64>) -> Option<u64>
    decreases ps.len(),
{
    if ps.len() == 0 {
        prev
    } else {
        Some(ema_step(period, ema_after(period, prev, ps.drop_last()), ps.last()) as u64)
    }
}

/// The RSI state after feeding one price.
pub open spec fn rsi_step(r: Rsi, price: u64) -> Rsi {
    Rsi {
        period: r.period,
        prev: Some(price),
        avg_gain: wilder_step(r.period as nat, r.avg_gain, gain_of(r.prev, price)) as u64,
        avg_loss: wilder_step(r.period as nat, r.avg_loss, loss_of(r.prev, price)) as u64,
    }
}

/// The RSI state after feeding `ps` in order.
pub open spec fn rsi_state_after(r: Rsi, ps: Seq<u64>) -> Rsi
    decreases ps.len(),
{
    if ps.len() == 0 {
        r
    } else {
        rsi_step(rsi_state_after(r, ps.drop_last()), ps.last())
    }
}

/// With a period of one the average is exactly the latest price.
pub proof fn lemma_ema_period_one(prev: Option<u64>, price: u64)
    ensures
        ema_step(1, prev, price) == price,
{
    if let Some(e) = prev {
        assert((2 * price + (1 - 1) * e) / 2 == price) by (nonlinear_arith);
    }
}

/// Whatever prices came before, the RSI lies between 0 and the top of its scale.
pub proof fn lemma_rsi_in_range(avg_gain: nat, avg_loss: nat)
    ensures
        rsi_value(avg_gain, avg_loss) <= RSI_SCALE,
{
    if avg_loss > 0 {
        assert(RSI_SCALE * avg_gain <= RSI_SCALE * (avg_gain + avg_loss)) by (nonlinear_arith);
        vstd::arithmetic::div_mod::lemma_div_is_ordered(
            (RSI_SCALE * avg_gain) as int, (RSI_SCALE * (avg_gain + avg_loss)) as int,
            (avg_gain + avg_loss) as int);
        vstd::arithmetic::div_mod::lemma_div_multiples_vanish(
            RSI_SCALE as int, (avg_gain + avg_loss) as int);
    }
}

} // verus!
