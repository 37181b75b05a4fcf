use three_bar::decimal::parse_fixed;
use three_bar::kline::{KLine, RawField};

#[test]
fn decimal_text_to_fixed_point() {
    assert_eq!(parse_fixed("43210.57"), Some(4_321_057_000_000));
    assert_eq!(parse_fixed("1"), Some(100_000_000));
    assert_eq!(parse_fixed("1."), Some(100_000_000));
    assert_eq!(parse_fixed("0.00000001"), Some(1));
    assert_eq!(parse_fixed("0.000000019"), Some(1));
    assert_eq!(parse_fixed("184467440737.09551615"), Some(u64::MAX));
    assert_eq!(parse_fixed("184467440737.09551616"), None);
    assert_eq!(parse_fixed("99999999999999999999"), None);
}

#[test]
fn decimal_text_rejected() {
    assert_eq!(parse_fixed(""), None);
    assert_eq!(parse_fixed(".5"), None);
    assert_eq!(parse_fixed("1.2.3"), None);
    assert_eq!(parse_fixed("abc"), None);
    assert_eq!(parse_fixed("-1"), None);
    assert_eq!(parse_fixed("1e5"), None);
}

fn row(trades: i64) -> Vec<RawField> {
    let t = |s: &str| RawField::Text(s.to_string());
    vec![
        RawField::Int(1_577_836_800_000),
        t("7189.43"),
        t("7190.52"),
        t("7170.15"),
        t("7171.55"),
        t("2449.049"),
        RawField::Int(1_577_837_099_999),
        t("17576510.01"),
        RawField::Int(trades),
        t("1126.588"),
        t("8084869.40"),
    ]
}

#[test]
fn candle_row_reads() {
    let k = KLine::from_raw(&row(3014)).expect("row reads");
    assert_eq!(k.start_time, 1_577_836_800_000);
    assert_eq!(k.open_price, 718_943_000_000);
    assert_eq!(k.high_price, 719_052_000_000);
    assert_eq!(k.low_price, 717_015_000_000);
    assert_eq!(k.close_price, 717_155_000_000);
    assert_eq!(k.volume, 244_904_900_000);
    assert_eq!(k.close_time, 1_577_837_099_999);
    assert_eq!(k.number_of_trades, 3014);
    assert_eq!(k.taker_buy_quote_volume, 808_486_940_000_000);
    assert!(k.is_valid());
}

#[test]
fn candle_row_rejected() {
    assert!(KLine::from_raw(&row(-1)).is_none());
    let mut short = row(1);
    short.pop();
    assert!(KLine::from_raw(&short).is_none());
    let mut wrong = row(1);
    wrong[1] = RawField::Int(5);
    assert!(KLine::from_raw(&wrong).is_none());
    let mut other = row(1);
    other[0] = RawField::Other;
    assert!(KLine::from_raw(&other).is_none());
}
