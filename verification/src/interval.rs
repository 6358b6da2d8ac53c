use vstd::prelude::*;

verus! {

/// Candle intervals of market data.
#[derive(Debug, Clone, Copy, PartialEq, Eq, Structural)]
pub enum Interval {
    Min1,
    Min3,
    Min5,
    Min15,
    Min30,
    Hour1,
    Hour2,
    Hour4,
    Hour6,
    Hour12,
    Day1,
    Week1,
    Month1,
}

/// Why a text names no interval.
#[derive(Debug, Clone, Copy, PartialEq, Eq, Structural)]
pub enum IntervalError {
    /// The text is none of the interval codes.
    Invalid,
}

/// The code that names an interval on the command line.
pub open spec fn interval_code(i: Interval) -> Seq<char> {
    match i {
        Interval::Min1 => "1m"@,
        Interval::Min3 => "3m"@,
        Interval::Min5 => "5m"@,
        Interval::Min15 => "15m"@,
        Interval::Min30 => "30m"@,
        Interval::Hour1 => "1h"@,
        Interval::Hour2 => "2h"@,
        Interval::Hour4 => "4h"@,
        Interval::Hour6 => "6h"@,
        Interval::Hour12 => "12h"@,
        Interval::Day1 => "1d"@,
        Interval::Week1 => "1w"@,
        Interval::Month1 => "1M"@,
    }
}

/// Reads an interval code: `1m`, `3m`, `5m`, `15m`, `30m`, `1h`, `2h`, `4h`, `6h`,
/// `12h`, `1d`, `1w` or `1M`.
pub fn parse_interval(s: &str) -> (r: Result<Interval, IntervalError>)
    ensures
        r matches Ok(i) ==> interval_code(i) == s@,
        r is Err <==> forall|i: Interval| interval_code(i) != s@,
        r is Err ==> r == Err::<Interval, IntervalError>(IntervalError::Invalid),
{
    let t: String = s.to_owned();
    let r = if t == "1m".to_owned() {
        Ok(Interval::Min1)
    } else if t == "3m".to_owned() {
        Ok(Interval::Min3)
    } else if t == "5m".to_owned() {
        Ok(Interval::Min5)
    } else if t == "15m".to_owned() {
        Ok(Interval::Min15)
    } else if t == "30m".to_owned() {
        Ok(Interval::Min30)
    } else if t == "1h".to_owned() {
        Ok(Interval::Hour1)
    } else if t == "2h".to_owned() {
        Ok(Interval::Hour2)
    } else if t == "4h".to_owned() {
        Ok(Interval::Hour4)
    } else if t == "6h".to_owned() {
        Ok(Interval::Hour6)
    } else if t == "12h".to_owned() {
        Ok(Interval::Hour12)
    } else if t == "1d".to_owned() {
        Ok(Interval::Day1)
    } else if t == "1w".to_owned() {
        Ok(Interval::Week1)
    } else if t == "1M".to_owned() {
        Ok(Interval::Month1)
    } else {
        proof {
            assert forall|i: Interval| interval_code(i) != s@ by {
                match i {
                    Interval::Min1 => {},
                    Interval::Min3 => {},
                    Interval::Min5 => {},
                    Interval::Min15 => {},
                    Interval::Min30 => {},
                    Interval::Hour1 => {},
                    Interval::Hour2 => {},
                    Interval::Hour4 => {},
                    Interval::Hour6 => {},
                    Interval::Hour12 => {},
                    Interval::Day1 => {},
                    Interval::Week1 => {},
                    Interval::Month1 => {},
                }
            }
        }
        Err(IntervalError::Invalid)
    };
    proof {
        if let Ok(i) = r {
            assert(interval_code(i) == s@);
        }
    }
    r
}

/// No two intervals share a code, so each code reads as exactly one interval.
pub proof fn lemma_interval_codes_distinct(a: Interval, b: Interval)
    ensures
        interval_code(a) == interval_code(b) ==> a == b,
{
    reveal_strlit("1m");
    reveal_strlit("3m");
    reveal_strlit("5m");
    reveal_strlit("15m");
    reveal_strlit("30m");
    reveal_strlit("1h");
    reveal_strlit("2h");
    reveal_strlit("4h");
    reveal_strlit("6h");
    reveal_strlit("12h");
    reveal_strlit("1d");
    reveal_strlit("1w");
    reveal_strlit("1M");
    if interval_code(a) == interval_code(b) {
        assert(interval_code(a).len() == interval_code(b).len());
        assert(interval_code(a)[0] == interval_code(b)[0]);
        assert(interval_code(a)[1] == interval_code(b)[1]);
    }
}

} // verus!
