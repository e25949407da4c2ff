//! Rendering of numbers for log lines and directory listings.

use vstd::prelude::*;
use vstd::string::StringExecFns;
use std::time::Duration;

verus! {

/// The decimal digit for `d < 10`.
pub open spec fn digit_char(d: nat) -> char {
    if d == 0 {
        '0'
    } else if d == 1 {
        '1'
    } else if d == 2 {
        '2'
    } else if d == 3 {
        '3'
    } else if d == 4 {
        '4'
    } else if d == 5 {
        '5'
    } else if d == 6 {
        '6'
    } else if d == 7 {
        '7'
    } else if d == 8 {
        '8'
    } else {
        '9'
    }
}

/// The decimal notation of `n`, without leading zeros.
pub open spec fn decimal(n: nat) -> Seq<char>
    decreases n,
{
    if n < 10 {
        seq![digit_char(n)]
    } else {
        decimal(n / 10).push(digit_char(n % 10))
    }
}

/// The decimal notation of `n`, padded with zeros to at least two digits.
pub open spec fn two_digits(n: nat) -> Seq<char> {
    if n < 10 {
        seq!['0'] + decimal(n)
    } else {
        decimal(n)
    }
}

/// How a span of `n` nanoseconds is written in a log line: the largest unit
/// that holds more than one whole of it, then a point and the count of the
/// next smaller unit (the whole count of milliseconds, for seconds).
pub open spec fn duration_text(n: nat) -> Seq<char> {
    let secs = n / 1_000_000_000;
    let millis = n / 1_000_000;
    let micros = n / 1000;
    if secs > 1 {
        decimal(secs) + seq!['.'] + two_digits(millis) + seq!['s']
    } else if millis > 1 {
        decimal(millis) + seq!['.'] + two_digits(micros % 1000) + seq!['m', 's']
    } else if micros > 1 {
        decimal(micros) + seq!['.'] + two_digits(n % 1000) + seq!['\u{3bc}', 's']
    } else {
        decimal(n) + seq!['n', 's']
    }
}

/// A byte count in tenths of a kilobyte (1024 bytes), rounded to the nearest
/// tenth, a tie going to the even tenth.
pub open spec fn kb_tenths(size: nat) -> nat {
    let q = (size * 5) / 512;
    let r = (size * 5) % 512;
    if r > 256 || (r == 256 && q % 2 == 1) {
        q + 1
    } else {
        q
    }
}

/// A file size as a listing shows it: kilobytes with one decimal, then " KB".
pub open spec fn size_text(size: nat) -> Seq<char> {
    let t = kb_tenths(size);
    decimal(t / 10) + seq!['.', digit_char(t % 10), ' ', 'K', 'B']
}

/// The one-character string of the digit `d`.
fn digit_str(d: u128) -> (r: &'static str)
    requires
        d < 10,
    ensures
        r@ == seq![digit_char(d as nat)],
{
    proof {
        reveal_strlit("0");
        reveal_strlit("1");
        reveal_strlit("2");
        reveal_strlit("3");
        reveal_strlit("4");
        reveal_strlit("5");
        reveal_strlit("6");
        reveal_strlit("7");
        reveal_strlit("8");
        reveal_strlit("9");
    }
    if d == 0 {
        "0"
    } else if d == 1 {
        "1"
    } else if d == 2 {
        "2"
    } else if d == 3 {
        "3"
    } else if d == 4 {
        "4"
    } else if d == 5 {
        "5"
    } else if d == 6 {
        "6"
    } else if d == 7 {
        "7"
    } else if d == 8 {
        "8"
    } else {
        "9"
    }
}

/// Writes `n` in decimal.
pub fn decimal_text(n: u128) -> (r: String)
    ensures
        r@ == decimal(n as nat),
    decreases n,
{
    if n < 10 {
        String::from_str(digit_str(n))
    } else {
        let mut s = decimal_text(n / 10);
        s.append(digit_str(n % 10));
        s
    }
}

/// Writes `n` in decimal with at least two digits.
fn two_digits_text(n: u128) -> (r: String)
    ensures
        r@ == two_digits(n as nat),
{
    if n < 10 {
        proof {
            reveal_strlit("0");
        }
        let s = String::from_str("0");
        s.concat(decimal_text(n).as_str())
    } else {
        decimal_text(n)
    }
}

/// Writes a span of `nanos` nanoseconds as a log line shows it.
pub fn fmt_nanos(nanos: u128) -> (r: String)
    ensures
        r@ == duration_text(nanos as nat),
{
    let secs = nanos / 1_000_000_000;
    let millis = nanos / 1_000_000;
    let micros = nanos / 1000;
    proof {
        reveal_strlit(".");
        reveal_strlit("s");
        reveal_strlit("ms");
        reveal_strlit("\u{3bc}s");
        reveal_strlit("ns");
    }
    if secs > 1 {
        let mut s = decimal_text(secs);
        s.append(".");
        s.append(two_digits_text(millis).as_str());
        s.append("s");
        s
    } else if millis > 1 {
        let mut s = decimal_text(millis);
        s.append(".");
        s.append(two_digits_text(micros % 1000).as_str());
        s.append("ms");
        s
    } else if micros > 1 {
        let mut s = decimal_text(micros);
        s.append(".");
        s.append(two_digits_text(nanos % 1000).as_str());
        s.append("\u{3bc}s");
        s
    } else {
        let mut s = decimal_text(nanos);
        s.append("ns");
        s
    }
}

/// The whole number of nanoseconds in a duration.
pub uninterp spec fn nanos_of(d: Duration) -> nat;

/// Relies on Duration::as_nanos: the total number of whole nanoseconds held.
#[verifier::external_body]
fn duration_nanos(d: &Duration) -> (r: u128)
    ensures
        r as nat == nanos_of(*d),
{
    d.as_nanos()
}

/// Writes a duration as a log line shows it.
pub fn fmt_duration(duration: Duration) -> (r: String)
    ensures
        r@ == duration_text(nanos_of(duration)),
{
    fmt_nanos(duration_nanos(&duration))
}

/// Writes a file size as a directory listing shows it.
pub fn fmt_size(size: u64) -> (r: String)
    ensures
        r@ == size_text(size as nat),
{
    let wide = size as u128;
    let q = (wide * 5) / 512;
    let rem = (wide * 5) % 512;
    let tenths = if rem > 256 || (rem == 256 && q % 2 == 1) {
        q + 1
    } else {
        q
    };
    assert(tenths == kb_tenths(size as nat));
    let mut s = decimal_text(tenths / 10);
    proof {
        reveal_strlit(".");
        reveal_strlit(" KB");
    }
    s.append(".");
    s.append(digit_str(tenths % 10));
    s.append(" KB");
    s
}

/// The class of an HTTP status code, which decides how a log line colors it.
#[derive(PartialEq, Eq, Structural, Clone, Copy, Debug)]
pub enum StatusClass {
    /// 200 to 299.
    Success,
    /// 300 to 399.
    Redirect,
    /// 400 to 499.
    ClientError,
    /// 500 to 599.
    ServerError,
    /// Any other code.
    Other,
}

/// The class of a status code.
pub fn status_class(code: u16) -> (r: StatusClass)
    ensures
        r == if 200 <= code <= 299 {
            StatusClass::Success
        } else if 300 <= code <= 399 {
            StatusClass::Redirect
        } else if 400 <= code <= 499 {
            StatusClass::ClientError
        } else if 500 <= code <= 599 {
            StatusClass::ServerError
        } else {
            StatusClass::Other
        },
{
    if 200 <= code && code <= 299 {
        StatusClass::Success
    } else if 300 <= code && code <= 399 {
        StatusClass::Redirect
    } else if 400 <= code && code <= 499 {
        StatusClass::ClientError
    } else if 500 <= code && code <= 599 {
        StatusClass::ServerError
    } else {
        StatusClass::Other
    }
}

} // verus!
