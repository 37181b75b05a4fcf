//! Feeding an ordered candle sequence to the strategy until it ends or the
//! ledger stops.
use vstd::prelude::*;
use crate::kline::KLine;
use crate::ledger::{Report, report_of, sum_real};
use crate::strategy::{TripleBarStrategy, next_state, exit_signal, position_after_entry};

verus! {

/// How a run ended, with the ledger's report at that point.
#[derive(Debug, Clone, Copy, PartialEq, Eq, Structural)]
pub enum RunStatus {
    /// Every candle was processed.
    Completed(Report),
    /// The capital fell to the floor; later candles were not consumed.
    Halted(Report),
    /// The capital grew beyond `MAX_CAPITAL`; later candles were not consumed.
    CapitalOverflow(Report),
}

/// Why a candle sequence was refused, with the index of the first bad candle.
#[derive(Debug, Clone, Copy, PartialEq, Eq, Structural)]
pub enum CandleError {
    /// The candle breaks the price or time relations of a candle.
    Malformed(usize),
    /// The candle starts before the one ahead of it.
    OutOfOrder(usize),
}

/// Candle `i` of `cs` is well formed and does not start before candle `i - 1`.
pub open spec fn candle_ok(cs: Seq<KLine>, i: int) -> bool {
    &&& cs[i].wf()
    &&& i > 0 ==> cs[i - 1].start_time <= cs[i].start_time
}

/// Checks that every candle is well formed and that start times never
/// decrease; reports the first candle that fails.
pub fn validate_candles(candles: &Vec<KLine>) -> (r: Result<(), CandleError>)
    ensures
        r is Ok <==> forall|i: int| 0 <= i < candles@.len() ==> candle_ok(candles@, i),
        r matches Err(CandleError::Malformed(i)) ==> i < candles@.len() && !candles@[i as int].wf()
            && forall|j: int| 0 <= j < i ==> candle_ok(candles@, j),
        r matches Err(CandleError::OutOfOrder(i)) ==> 0 < i < candles@.len()
            && candles@[i as int].wf()
            && candles@[i - 1].start_time > candles@[i as int].start_time
            && forall|j: int| 0 <= j < i ==> candle_ok(candles@, j),
{
    let n = candles.len();
    let mut i: usize = 0;
    while i < n
        invariant
            n == candles@.len(),
            0 <= i <= n,
            forall|j: int| 0 <= j < i ==> candle_ok(candles@, j),
        decreases n - i,
    {
        if !candles[i].is_valid() {
            assert(!candle_ok(candles@, i as int));
            return Err(CandleError::Malformed(i));
        }
        if i > 0 && candles[i - 1].start_time > candles[i].start_time {
            assert(!candle_ok(candles@, i as int));
            return Err(CandleError::OutOfOrder(i));
        }
        i = i + 1;
    }
    Ok(())
}

/// `trace` runs from `s` to `t` through the first `k` candles of `cs`, one
/// candle per step, each handed over while the ledger had not stopped.
pub open spec fn is_run(s: TripleBarStrategy, cs: Seq<KLine>, k: int, trace: Seq<TripleBarStrategy>, t: TripleBarStrategy) -> bool {
    &&& 0 <= k <= cs.len()
    &&& trace.len() == k + 1
    &&& trace[0] == s
    &&& trace[k] == t
    &&& forall|j: int| 0 <= j < k ==> next_state(#[trigger] trace[j], cs[j], trace[j + 1])
    &&& forall|j: int| 0 <= j < k ==> !(#[trigger] trace[j]).ledger.stopped()
}

/// Some trace runs from `s` to `t` through the first `k` candles of `cs`.
pub open spec fn runs_to(s: TripleBarStrategy, cs: Seq<KLine>, k: int, t: TripleBarStrategy) -> bool {
    exists|trace: Seq<TripleBarStrategy>| is_run(s, cs, k, trace, t)
}

/// Feeds `candles` in order to `strategy`, stopping as soon as its ledger
/// stops, and returns the ledger's report. Returns `(status, consumed)`, where
/// `consumed` counts the candles handed to the strategy: all of them, unless
/// the ledger stopped.
pub fn run_candles(strategy: &mut TripleBarStrategy, candles: &Vec<KLine>) -> (r: (RunStatus, usize))
    requires
        old(strategy).wf(),
        forall|i: int| 0 <= i < candles@.len() ==> (#[trigger] candles@[i]).wf(),
    ensures
        final(strategy).wf(),
        runs_to(*old(strategy), candles@, r.1 as int, *final(strategy)),
        r.0 == (if final(strategy).ledger.halted {
            RunStatus::Halted(report_of(final(strategy).ledger))
        } else if final(strategy).ledger.overflowed {
            RunStatus::CapitalOverflow(report_of(final(strategy).ledger))
        } else {
            RunStatus::Completed(report_of(final(strategy).ledger))
        }),
        !final(strategy).ledger.stopped() ==> r.1 == candles@.len(),
        old(strategy).ledger.stopped() ==> r.1 == 0 && *final(strategy) == *old(strategy),
        final(strategy).ledger.initial_money == old(strategy).ledger.initial_money,
        final(strategy).ledger.capital_floor == old(strategy).ledger.capital_floor,
        final(strategy).params == old(strategy).params,
{
    let n = candles.len();
    let mut i: usize = 0;
    let ghost mut trace: Seq<TripleBarStrategy> = seq![*strategy];
    while i < n && !strategy.ledger.is_stopped()
        invariant
            strategy.wf(),
            0 <= i <= n,
            n == candles@.len(),
            forall|j: int| 0 <= j < candles@.len() ==> (#[trigger] candles@[j]).wf(),
            old(strategy).ledger.stopped() ==> i == 0 && *strategy == *old(strategy),
            strategy.ledger.initial_money == old(strategy).ledger.initial_money,
            strategy.ledger.capital_floor == old(strategy).ledger.capital_floor,
            strategy.params == old(strategy).params,
            is_run(*old(strategy), candles@, i as int, trace, *strategy),
        decreases n - i,
    {
        let ghost before = *strategy;
        strategy.on_market_data(&candles[i]);
        proof {
            let ghost prev = trace;
            trace = trace.push(*strategy);
            assert forall|j: int| 0 <= j < i + 1 implies
                next_state(#[trigger] trace[j], candles@[j], trace[j + 1]) by {
                if j < i {
                    assert(trace[j] == prev[j] && trace[j + 1] == prev[j + 1]);
                }
            }
            assert forall|j: int| 0 <= j < i + 1 implies !(#[trigger] trace[j]).ledger.stopped() by {
                if j < i {
                    assert(trace[j] == prev[j]);
                }
            }
        }
        i = i + 1;
    }
    let report = strategy.ledger.get_report();
    proof {
        assert(is_run(*old(strategy), candles@, i as int, trace, *strategy));
        assert(runs_to(*old(strategy), candles@, i as int, *strategy));
    }
    if strategy.ledger.is_halted() {
        (RunStatus::Halted(report), i)
    } else if strategy.ledger.overflowed {
        (RunStatus::CapitalOverflow(report), i)
    } else {
        (RunStatus::Completed(report), i)
    }
}

/// At every point of a run the running capital is the starting capital plus
/// the real profit of the closed trades, all records but the last are closed,
/// and a position is open exactly when an unclosed record exists.
pub proof fn lemma_run_ledger_invariants(s: TripleBarStrategy, cs: Seq<KLine>, k: int, t: TripleBarStrategy)
    requires
        s.wf(),
        runs_to(s, cs, k, t),
    ensures
        t.ledger.money == t.ledger.initial_money + sum_real(t.ledger.records@),
        forall|i: int| 0 <= i < t.ledger.records@.len() - 1
            ==> (#[trigger] t.ledger.records@[i]).is_finalized(),
        t.position is Some <==> exists|i: int|
            0 <= i < t.ledger.records@.len() && !(#[trigger] t.ledger.records@[i]).is_finalized(),
{
    reveal(next_state);
    let trace = choose|trace: Seq<TripleBarStrategy>| is_run(s, cs, k, trace, t);
    if k > 0 {
        assert(next_state(trace[k - 1], cs[k - 1], trace[k]));
    }
    assert(t.wf());
    let n = t.ledger.records@.len();
    if t.position is Some {
        assert(!t.ledger.records@[n - 1].is_finalized());
    } else if exists|i: int| 0 <= i < n && !(#[trigger] t.ledger.records@[i]).is_finalized() {
        let i = choose|i: int| 0 <= i < n && !(#[trigger] t.ledger.records@[i]).is_finalized();
        assert(i == n - 1);
    }
}

/// Once the ledger has stopped (capital at or below the floor, or beyond
/// `MAX_CAPITAL`), a candle changes nothing, and a run starting there consumes
/// no candle.
pub proof fn lemma_halt_is_final(s: TripleBarStrategy, c: KLine, t: TripleBarStrategy, cs: Seq<KLine>, k: int, u: TripleBarStrategy)
    requires
        s.ledger.stopped(),
    ensures
        next_state(s, c, t) ==> t == s,
        runs_to(s, cs, k, u) ==> k == 0 && u == s,
{
    reveal(next_state);
    if runs_to(s, cs, k, u) {
        let trace = choose|trace: Seq<TripleBarStrategy>| is_run(s, cs, k, trace, u);
        assert(!trace[0].ledger.stopped() ==> k == 0);
    }
}

/// A trade closed by a candle is closed at the take-profit or the stop-loss
/// price that was set when it was opened.
pub proof fn lemma_close_at_target(s: TripleBarStrategy, c: KLine, t: TripleBarStrategy)
    requires
        s.wf(),
        !s.ledger.stopped(),
        next_state(s, c, t),
        exit_signal(s, c) is Some,
    ensures
        position_after_entry(s, c) matches Some(pos) && {
            let last = t.ledger.records@.last();
            &&& last.is_finalized()
            &&& (last.leave_price == Some(pos.take_profit as u64)
                || last.leave_price == Some(pos.stop_loss as u64))
        },
{
    reveal(next_state);
}

/// A run that ends with the ledger stopped ends on the candle that stopped it:
/// the state before that candle had not stopped, and the run's final state is
/// exactly the state right after it, so no later candle reaches the strategy.
pub proof fn lemma_run_ends_at_stop(s: TripleBarStrategy, cs: Seq<KLine>, k: int, t: TripleBarStrategy)
    requires
        !s.ledger.stopped(),
        runs_to(s, cs, k, t),
        t.ledger.stopped(),
    ensures
        k > 0,
        exists|u: TripleBarStrategy|
            runs_to(s, cs, k - 1, u) && !u.ledger.stopped() && next_state(u, cs[k - 1], t),
{
    let trace = choose|trace: Seq<TripleBarStrategy>| is_run(s, cs, k, trace, t);
    assert(k > 0);
    let u = trace[k - 1];
    let pre = trace.take(k);
    assert(is_run(s, cs, k - 1, pre, u)) by {
        assert forall|j: int| 0 <= j < k - 1 implies
            next_state(#[trigger] pre[j], cs[j], pre[j + 1]) by {
            assert(pre[j] == trace[j] && pre[j + 1] == trace[j + 1]);
        }
        assert forall|j: int| 0 <= j < k - 1 implies !(#[trigger] pre[j]).ledger.stopped() by {
            assert(pre[j] == trace[j]);
        }
    }
    assert(next_state(trace[k - 1], cs[k - 1], trace[k]));
    assert(!trace[k - 1].ledger.stopped());
    assert(runs_to(s, cs, k - 1, u));
}

} // verus!
