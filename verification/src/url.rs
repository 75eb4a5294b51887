//! The request URL of a window.

use vstd::prelude::*;
use vstd::string::StringExecFns;

use crate::error::AuditError;

verus! {

/// The instrument whose candles are audited.
pub const SYMBOL: &'static str = "SOL/USDC";

/// The character of the decimal digit `d`.
pub open spec fn digit(d: int) -> char {
    if d == 0 {
        '0'
    } else if d == 1 {
        '1'
    } else if d == 2 {
        '2'
    } else if d == 3 {
        '3'
    } else if d == 4 {
        '4'
    } else if d == 5 {
        '5'
    } else if d == 6 {
        '6'
    } else if d == 7 {
        '7'
    } else if d == 8 {
        '8'
    } else {
        '9'
    }
}

/// The decimal digits of `n`, most significant first, without leading zeros.
pub open spec fn digits(n: nat) -> Seq<char>
    decreases n,
{
    if n < 10 {
        seq![digit(n as int)]
    } else {
        digits(n / 10).push(digit((n % 10) as int))
    }
}

/// The integer `n` in base ten, with a minus sign where it is negative.
pub open spec fn decimal(n: int) -> Seq<char> {
    if n < 0 {
        seq!['-'] + digits((-n) as nat)
    } else {
        digits(n as nat)
    }
}

/// The URL that asks the endpoint at `base` for the candles of `symbol` between
/// `from` and `to`.  `base` is taken to end in a slash, and nothing is escaped.
pub open spec fn url_text(
    base: Seq<char>,
    symbol: Seq<char>,
    resolution: int,
    from: int,
    to: int,
) -> Seq<char> {
    base + "history?symbol="@ + symbol + "&resolution="@ + decimal(resolution) + "&from="@
        + decimal(from) + "&to="@ + decimal(to)
}

fn digit_str(d: u64) -> (s: &'static str)
    requires
        d < 10,
    ensures
        s@ == seq![digit(d as int)],
{
    proof {
        reveal_strlit("0");
        reveal_strlit("1");
        reveal_strlit("2");
        reveal_strlit("3");
        reveal_strlit("4");
        reveal_strlit("5");
        reveal_strlit("6");
        reveal_strlit("7");
        reveal_strlit("8");
        reveal_strlit("9");
    }
    let s = if d == 0 {
        "0"
    } else if d == 1 {
        "1"
    } else if d == 2 {
        "2"
    } else if d == 3 {
        "3"
    } else if d == 4 {
        "4"
    } else if d == 5 {
        "5"
    } else if d == 6 {
        "6"
    } else if d == 7 {
        "7"
    } else if d == 8 {
        "8"
    } else {
        "9"
    };
    assert(s@ =~= seq![digit(d as int)]);
    s
}

fn append_digits(out: &mut String, n: u64)
    ensures
        final(out)@ == old(out)@ + digits(n as nat),
    decreases n,
{
    if n >= 10 {
        append_digits(out, n / 10);
    }
    out.append(digit_str(n % 10));
    assert(out@ =~= old(out)@ + digits(n as nat));
}

/// Appends `n` in base ten to `out`.
pub fn append_decimal(out: &mut String, n: i64)
    ensures
        final(out)@ == old(out)@ + decimal(n as int),
{
    if n < 0 {
        proof {
            reveal_strlit("-");
        }
        out.append("-");
        let magnitude: u64 = if n == i64::MIN {
            0x8000_0000_0000_0000
        } else {
            (-n) as u64
        };
        append_digits(out, magnitude);
        assert(out@ =~= old(out)@ + decimal(n as int));
    } else {
        append_digits(out, n as u64);
    }
}

/// The URL that asks the endpoint at `base` for the candles of `symbol` between
/// `from_ts` and `to_ts` at a resolution of `api_resolution` minutes.
pub fn build_url(base: &str, symbol: &str, api_resolution: u32, from_ts: i64, to_ts: i64) -> (url:
    String)
    ensures
        url@ == url_text(base@, symbol@, api_resolution as int, from_ts as int, to_ts as int),
{
    let mut url = String::from_str(base);
    url.append("history?symbol=");
    url.append(symbol);
    url.append("&resolution=");
    append_decimal(&mut url, api_resolution as i64);
    url.append("&from=");
    append_decimal(&mut url, from_ts);
    url.append("&to=");
    append_decimal(&mut url, to_ts);
    url
}

/// The URL that asks the configured endpoint for the candles of [`SYMBOL`].
///
/// Fails with [`AuditError::ConfigurationMissing`] when no base is configured.
pub fn make_url(base: Option<&str>, api_resolution: u32, from_ts: i64, to_ts: i64) -> (r: Result<
    String,
    AuditError,
>)
    ensures
        r is Ok <==> base is Some,
        r matches Ok(url) ==> url@ == url_text(
            base->0@,
            SYMBOL@,
            api_resolution as int,
            from_ts as int,
            to_ts as int,
        ),
        r matches Err(e) ==> e == AuditError::ConfigurationMissing,
{
    match base {
        Some(base) => Ok(build_url(base, SYMBOL, api_resolution, from_ts, to_ts)),
        None => Err(AuditError::ConfigurationMissing),
    }
}

} // verus!
