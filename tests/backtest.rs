use three_bar::backtest::{run_candles, validate_candles, CandleError, RunStatus};
use three_bar::enums::{KLinePeriod, OrderSide};
use three_bar::indicator::{Ema, Rsi};
use three_bar::keys::extract_date_from_key;
use three_bar::kline::KLine;
use three_bar::ledger::{TradeRecord, DEFAULT_CAPITAL, MAX_CAPITAL};
use three_bar::sign::get_sign;
use three_bar::strategy::{evaluate_entry, evaluate_exit, Position, StrategyParams, TripleBarStrategy};
use std::collections::VecDeque;
use three_bar::{RSI_SCALE, SCALE};

const FEE: u32 = 50_000;

fn candle(t: i64, open: u64, close: u64, high: u64, low: u64) -> KLine {
    KLine {
        start_time: t,
        open_price: open * SCALE,
        high_price: high * SCALE,
        low_price: low * SCALE,
        close_price: close * SCALE,
        volume: 0,
        close_time: t + 299_999,
        quote_volume: 0,
        number_of_trades: 0,
        taker_buy_volume: 0,
        taker_buy_quote_volume: 0,
    }
}

fn params(ignore_rsi: bool) -> StrategyParams {
    StrategyParams {
        ema_period: 20,
        rsi_period: 4,
        rsi_top: 7090,
        rsi_bottom: 2960,
        rsi_over_bought: 9600,
        rsi_over_sell: 200,
        ignore_rsi,
    }
}

fn strategy_with_fees(ignore_rsi: bool) -> TripleBarStrategy {
    let mut ledger = TradeRecord::new();
    ledger.set_entry_fee_percent(FEE);
    ledger.set_leave_fee_percent(FEE);
    TripleBarStrategy::new(params(ignore_rsi), ledger)
}

fn rising_three() -> Vec<KLine> {
    vec![
        candle(0, 10, 11, 11, 10),
        candle(300_000, 11, 12, 12, 11),
        candle(600_000, 12, 14, 14, 12),
    ]
}

#[test]
fn three_rising_candles_open_long() {
    let mut s = strategy_with_fees(true);
    for c in rising_three() {
        s.on_market_data(&c);
    }
    let records = s.ledger.get_records();
    assert_eq!(records.len(), 1);
    assert_eq!(records[0].entry_price, 14 * SCALE);
    assert_eq!(records[0].side, OrderSide::Buy);
    assert_eq!(records[0].quantity, DEFAULT_CAPITAL);
    assert_eq!(records[0].fee, (DEFAULT_CAPITAL as i128) * 50_000 / 100_000_000);
    assert!(records[0].leave_time.is_none());
    let pos = s.position.expect("position open");
    assert_eq!(pos.take_profit, (18 * SCALE) as i64);
    assert_eq!(pos.stop_loss, (10 * SCALE) as i64);
}

#[test]
fn entry_rule_on_window() {
    let mut w = rising_three();
    w.reverse();
    let p = params(true);
    assert_eq!(evaluate_entry(&VecDeque::from(w.clone()), 11 * SCALE, 0, &p, FEE, FEE), Some(OrderSide::Buy));
    assert_eq!(evaluate_entry(&VecDeque::from(w.clone()), 15 * SCALE, 0, &p, FEE, FEE), None);
    assert_eq!(evaluate_entry(&VecDeque::from(w[..2].to_vec()), 11 * SCALE, 0, &p, FEE, FEE), None);
}

#[test]
fn entry_needs_move_above_fees() {
    let w = vec![
        candle(2, 100, 101, 101, 100),
        candle(1, 100, 101, 101, 100),
        candle(0, 100, 101, 101, 100),
    ];
    let p = params(true);
    assert_eq!(evaluate_entry(&VecDeque::from(w.clone()), 0, 0, &p, FEE, FEE), Some(OrderSide::Buy));
    assert_eq!(evaluate_entry(&VecDeque::from(w.clone()), 0, 0, &p, 500_000, 500_000), None);
}

#[test]
fn falling_candles_short_and_contrarian_rules() {
    let w = vec![
        candle(2, 12, 10, 12, 10),
        candle(1, 14, 12, 14, 12),
        candle(0, 16, 14, 16, 14),
    ];
    let p = params(false);
    let ema = 20 * SCALE;
    assert_eq!(evaluate_entry(&VecDeque::from(w.clone()), ema, 5000, &p, FEE, FEE), Some(OrderSide::Sell));
    assert_eq!(evaluate_entry(&VecDeque::from(w.clone()), ema, 100, &p, FEE, FEE), Some(OrderSide::Buy));
    assert_eq!(evaluate_entry(&VecDeque::from(w.clone()), ema, 8000, &p, FEE, FEE), None);
    let up = vec![
        candle(2, 14, 16, 16, 14),
        candle(1, 12, 14, 14, 12),
        candle(0, 10, 12, 12, 10),
    ];
    assert_eq!(evaluate_entry(&VecDeque::from(up.clone()), SCALE, 9700, &p, FEE, FEE), Some(OrderSide::Sell));
}

#[test]
fn ignore_rsi_never_gates_entry() {
    let mut w = rising_three();
    w.reverse();
    let p = params(true);
    for rsi in [0, 2960, 5000, 9600, RSI_SCALE] {
        assert_eq!(evaluate_entry(&VecDeque::from(w.clone()), 11 * SCALE, rsi, &p, FEE, FEE), Some(OrderSide::Buy));
    }
}

#[test]
fn exit_prefers_take_profit() {
    let pos = Position { side: OrderSide::Buy, take_profit: (18 * SCALE) as i64, stop_loss: (10 * SCALE) as i64 };
    assert_eq!(evaluate_exit(&pos, &candle(0, 12, 17, 19, 9)), Some((18 * SCALE) as i64));
    assert_eq!(evaluate_exit(&pos, &candle(0, 12, 11, 13, 9)), Some((10 * SCALE) as i64));
    assert_eq!(evaluate_exit(&pos, &candle(0, 12, 17, 18, 10)), None);
}

#[test]
fn closed_trade_exits_at_target_and_books_profit() {
    let mut s = strategy_with_fees(true);
    for c in rising_three() {
        s.on_market_data(&c);
    }
    s.on_market_data(&candle(900_000, 14, 17, 19, 13));
    let r = &s.ledger.get_records()[0];
    assert_eq!(r.leave_price, Some(18 * SCALE));
    let cap = DEFAULT_CAPITAL as i128;
    let profit = cap * 4 / 14;
    let fee = cap * 50_000 / 100_000_000 * 2;
    assert_eq!(r.profit, Some(profit));
    assert_eq!(r.fee, fee);
    assert_eq!(r.real_profit, Some(profit - fee));
    assert_eq!(r.price_percent, Some(4u128 * 100 * SCALE as u128 / 14));
    assert_eq!(s.ledger.money, cap + profit - fee);
    assert!(s.position.is_none());
    let report = s.ledger.get_report();
    assert_eq!(report.trade_count, 1);
    assert_eq!(report.win_count, 1);
    assert_eq!(report.loss_count, 0);
    assert_eq!(report.win_rate, 10_000);
    assert_eq!(report.return_percent, (profit - fee) * 10_000 / cap);
    assert_eq!(report.total_fees, fee);
}

#[test]
fn capital_equals_start_plus_real_profits() {
    let mut s = strategy_with_fees(true);
    let mut t = 0;
    for _ in 0..3 {
        for (o, c) in [(10, 11), (11, 12), (12, 14)] {
            s.on_market_data(&candle(t, o, c, c, o));
            t += 300_000;
        }
        s.on_market_data(&candle(t, 14, 11, 15, 9));
        t += 300_000;
    }
    let sum: i128 = s.ledger.get_records().iter().map(|r| r.real_profit.unwrap_or(0)).sum();
    assert!(s.ledger.get_records().len() >= 2);
    assert_eq!(s.ledger.money, DEFAULT_CAPITAL as i128 + sum);
    let open = s.ledger.get_records().iter().filter(|r| r.leave_time.is_none()).count();
    assert_eq!(open, if s.position.is_some() { 1 } else { 0 });
}

#[test]
fn empty_sequence_reports_zero() {
    let mut s = strategy_with_fees(true);
    let (status, consumed) = run_candles(&mut s, &Vec::new());
    assert_eq!(consumed, 0);
    match status {
        RunStatus::Completed(r) => {
            assert_eq!(r.trade_count, 0);
            assert_eq!(r.win_rate, 0);
            assert_eq!(r.return_percent, 0);
            assert_eq!(r.total_fees, 0);
            assert_eq!(r.final_capital, DEFAULT_CAPITAL as i128);
        }
        RunStatus::Halted(_) | RunStatus::CapitalOverflow(_) => panic!("no halt expected"),
    }
}

#[test]
fn leave_to_exact_floor_halts() {
    let cap: u64 = 1000 * SCALE;
    let mut l = TradeRecord::with_capital(cap, cap / 2);
    l.entry(1, 100 * SCALE, OrderSide::Buy);
    l.leave(2, 50 * SCALE);
    assert_eq!(l.money, (cap / 2) as i128);
    assert!(l.is_halted());
    l.entry(3, 100 * SCALE, OrderSide::Buy);
    assert_eq!(l.get_records().len(), 1);
    let r = l.get_report();
    assert_eq!(r.trade_count, 1);
    assert_eq!(r.loss_count, 1);
    assert_eq!(r.return_percent, -5000);
}

#[test]
fn halted_run_ignores_later_candles() {
    let ledger = TradeRecord::with_capital(1000 * SCALE, 1000 * SCALE);
    let mut s = TripleBarStrategy::new(params(true), ledger);
    let mut candles = rising_three();
    candles.push(candle(900_000, 14, 11, 15, 9));
    for (o, c) in [(10, 11), (11, 12), (12, 14), (14, 11)] {
        candles.push(candle(1_200_000, o, c, c.max(o), c.min(o)));
    }
    let (status, consumed) = run_candles(&mut s, &candles);
    assert_eq!(consumed, 4);
    match status {
        RunStatus::Halted(r) => {
            assert_eq!(r.trade_count, 1);
            assert_eq!(r.loss_count, 1);
        }
        RunStatus::Completed(_) | RunStatus::CapitalOverflow(_) => panic!("halt expected"),
    }
    let before = s.ledger.get_records().len();
    for c in rising_three() {
        s.on_market_data(&c);
    }
    assert_eq!(s.ledger.get_records().len(), before);
}

#[test]
fn ema_with_period_one_tracks_price() {
    let mut e = Ema::new(1);
    for p in [5, 17, 3, 3, 1_000_000] {
        assert_eq!(e.next(p), p);
    }
    let mut e20 = Ema::new(20);
    assert_eq!(e20.next(100), 100);
    assert_eq!(e20.next(121), (2 * 121 + 19 * 100) / 21);
}

#[test]
fn rsi_stays_in_range() {
    let mut r = Rsi::new(4);
    assert_eq!(r.next(100), RSI_SCALE);
    assert_eq!(r.next(110), RSI_SCALE);
    let v = r.next(90);
    assert!(v <= RSI_SCALE);
    // gains (0*3+10)/4 = 2, then 2*3/4 = 1; losses 20/4 = 5
    assert_eq!(v, RSI_SCALE * 1 / (1 + 5));
    for p in [1, 1000, 3, 999_999, 0, 0, 0] {
        assert!(r.next(p) <= RSI_SCALE);
    }
}

#[test]
fn candle_validity() {
    assert!(candle(0, 10, 11, 11, 10).is_valid());
    assert!(!candle(0, 10, 11, 10, 10).is_valid());
    let mut c = candle(0, 10, 11, 11, 10);
    c.close_time = 0;
    assert!(!c.is_valid());
}

#[test]
fn period_names() {
    assert_eq!(KLinePeriod::Min5.as_str(), "5m");
    assert_eq!(KLinePeriod::Hour4.as_str(), "4h");
    assert_eq!(KLinePeriod::Day1.as_str(), "1d");
}

#[test]
fn archive_key_date() {
    assert_eq!(extract_date_from_key("BTCUSDT-5m-2020-01.zip"), "2020-01.zip");
    assert_eq!(extract_date_from_key("a-b-c-d-e"), "c-d");
    assert_eq!(extract_date_from_key("a-b"), "");
}

#[test]
fn signature_is_hex_hmac_sha256() {
    assert_eq!(
        get_sign("The quick brown fox jumps over the lazy dog", "key"),
        "f7bc83f430538424b13298e6aa6fb143ef4d59a14946175997479dbc2d1a3cd8"
    );
}

#[test]
fn candle_sequence_validation() {
    assert_eq!(validate_candles(&rising_three()), Ok(()));
    assert_eq!(validate_candles(&Vec::new()), Ok(()));
    let mut bad = rising_three();
    bad[1].high_price = 0;
    assert_eq!(validate_candles(&bad), Err(CandleError::Malformed(1)));
    let mut late = rising_three();
    late.swap(0, 2);
    assert_eq!(validate_candles(&late), Err(CandleError::OutOfOrder(1)));
}

#[test]
fn same_candle_can_open_and_close() {
    let mut s = strategy_with_fees(true);
    s.on_market_data(&candle(0, 10, 11, 11, 10));
    s.on_market_data(&candle(300_000, 11, 12, 12, 11));
    s.on_market_data(&candle(600_000, 12, 14, 19, 12));
    let records = s.ledger.get_records();
    assert_eq!(records.len(), 1);
    assert_eq!(records[0].entry_price, 14 * SCALE);
    assert_eq!(records[0].leave_price, Some(18 * SCALE));
    assert!(s.position.is_none());
}

#[test]
fn run_halts_when_capital_lands_on_floor() {
    let cap: u64 = 1000 * SCALE;
    let loss = (4 * SCALE as u128 * cap as u128 / (14 * SCALE as u128)) as u64;
    let floor = cap - loss;
    let mut s = TripleBarStrategy::new(params(true), TradeRecord::with_capital(cap, floor));
    let mut candles = rising_three();
    candles.push(candle(900_000, 14, 11, 15, 9));
    candles.extend(rising_three());
    candles.push(candle(1_200_000, 14, 17, 19, 13));
    let (status, consumed) = run_candles(&mut s, &candles);
    assert_eq!(consumed, 4);
    assert_eq!(s.ledger.money, floor as i128);
    match status {
        RunStatus::Halted(r) => {
            assert_eq!(r.trade_count, 1);
            assert_eq!(r.loss_count, 1);
            assert_eq!(r.final_capital, floor as i128);
        }
        RunStatus::Completed(_) | RunStatus::CapitalOverflow(_) => panic!("halt expected"),
    }
    assert_eq!(s.ledger.get_records()[0].leave_price, Some(10 * SCALE));
}

#[test]
fn warm_up_primes_indicators_only() {
    let mut s = strategy_with_fees(true);
    s.warm_up(&vec![100, 121]);
    assert_eq!(s.ema.value, Some((2 * 121 + 19 * 100) / 21));
    assert_eq!(s.rsi.prev, Some(121));
    assert_eq!(s.rsi.avg_gain, 21 / 4);
    assert_eq!(s.rsi.avg_loss, 0);
    assert!(s.candles.is_empty());
    assert!(s.position.is_none());
    assert!(s.ledger.get_records().is_empty());
}

#[test]
fn gain_beyond_capital_range_is_booked_in_full_and_stops() {
    let mut l = TradeRecord::with_capital(MAX_CAPITAL, 0);
    l.entry(1, 1, OrderSide::Buy);
    l.leave(2, 2);
    let r = &l.get_records()[0];
    assert_eq!(r.profit, Some(MAX_CAPITAL as i128));
    assert_eq!(r.real_profit, Some(MAX_CAPITAL as i128));
    assert_eq!(l.money, 2 * MAX_CAPITAL as i128);
    assert!(!l.is_halted());
    assert!(l.overflowed);
    assert!(l.is_stopped());
    l.entry(3, 1, OrderSide::Buy);
    assert_eq!(l.get_records().len(), 1);
    let rep = l.get_report();
    assert_eq!(rep.final_capital, 2 * MAX_CAPITAL as i128);
    assert_eq!(rep.return_percent, 10_000);
}

#[test]
fn run_stops_when_capital_outgrows_range() {
    let mut s = TripleBarStrategy::new(params(true), TradeRecord::with_capital(MAX_CAPITAL, 0));
    let mut candles = rising_three();
    candles.push(candle(900_000, 14, 17, 19, 13));
    candles.extend(rising_three());
    let (status, consumed) = run_candles(&mut s, &candles);
    assert_eq!(consumed, 4);
    let gain = (4 * SCALE as u128 * MAX_CAPITAL as u128 / (14 * SCALE as u128)) as i128;
    assert_eq!(s.ledger.money, MAX_CAPITAL as i128 + gain);
    match status {
        RunStatus::CapitalOverflow(r) => {
            assert_eq!(r.trade_count, 1);
            assert_eq!(r.win_count, 1);
            assert_eq!(r.final_capital, MAX_CAPITAL as i128 + gain);
        }
        _ => panic!("overflow stop expected"),
    }
    assert_eq!(s.ledger.get_records()[0].real_profit, Some(gain));
}

#[test]
fn bearish_window_closing_at_zero_opens_short() {
    let mut w = vec![
        candle(2, 2, 0, 2, 0),
        candle(1, 4, 2, 4, 2),
        candle(0, 6, 4, 6, 4),
    ];
    w[0].low_price = 0;
    assert_eq!(evaluate_entry(&VecDeque::from(w.clone()), SCALE, 0, &params(true), FEE, FEE), Some(OrderSide::Sell));
    assert_eq!(evaluate_entry(&VecDeque::from(w.clone()), SCALE, 5000, &params(false), FEE, FEE), Some(OrderSide::Sell));
}

#[test]
fn zero_low_price_is_malformed() {
    let mut c = candle(0, 10, 11, 11, 10);
    c.low_price = 0;
    assert!(!c.is_valid());
    let mut cs = rising_three();
    cs[2].low_price = 0;
    assert_eq!(validate_candles(&cs), Err(CandleError::Malformed(2)));
}
