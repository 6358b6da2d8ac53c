use dex_arbitrage::interval::{parse_interval, Interval, IntervalError};

#[test]
fn every_code_parses() {
    let table = [
        ("1m", Interval::Min1),
        ("3m", Interval::Min3),
        ("5m", Interval::Min5),
        ("15m", Interval::Min15),
        ("30m", Interval::Min30),
        ("1h", Interval::Hour1),
        ("2h", Interval::Hour2),
        ("4h", Interval::Hour4),
        ("6h", Interval::Hour6),
        ("12h", Interval::Hour12),
        ("1d", Interval::Day1),
        ("1w", Interval::Week1),
        ("1M", Interval::Month1),
    ];
    for (code, interval) in table {
        assert_eq!(parse_interval(code), Ok(interval));
    }
}

#[test]
fn unknown_codes_are_refused() {
    for code in ["", "1H", "1W", "60m", "1h ", "day"] {
        assert_eq!(parse_interval(code), Err(IntervalError::Invalid));
    }
}

#[test]
fn minute_and_month_differ_by_case() {
    assert_eq!(parse_interval("1m"), Ok(Interval::Min1));
    assert_eq!(parse_interval("1M"), Ok(Interval::Month1));
}
