//! Durations in a form that a person reads at a glance: "27 ns", "350 μs",
//! "10.5 ms".

use std::time::Duration;
use vstd::prelude::*;
use vstd::string::*;

verus! {

/// The number of nanoseconds in a duration, as `Duration::as_nanos` returns
/// it.
pub uninterp spec fn nanoseconds(duration: Duration) -> u128;

/// `Duration::as_nanos`.
#[verifier::external_body]
fn as_nanos(duration: &Duration) -> (ns: u128)
    ensures
        ns == nanoseconds(*duration),
{
    duration.as_nanos()
}

/// The character for a decimal digit.
pub open spec fn digit_char(digit: nat) -> char {
    if digit == 0 {
        '0'
    } else if digit == 1 {
        '1'
    } else if digit == 2 {
        '2'
    } else if digit == 3 {
        '3'
    } else if digit == 4 {
        '4'
    } else if digit == 5 {
        '5'
    } else if digit == 6 {
        '6'
    } else if digit == 7 {
        '7'
    } else if digit == 8 {
        '8'
    } else {
        '9'
    }
}

/// A number in decimal, without leading zeros.
pub open spec fn decimal(number: nat) -> Seq<char>
    decreases number,
{
    if number < 10 {
        seq![digit_char(number)]
    } else {
        decimal(number / 10).push(digit_char(number % 10))
    }
}

/// A number of tenths in decimal: the whole part, then a point and the
/// tenth where the tenth is not zero.
pub open spec fn decimal_tenths(tenths: nat) -> Seq<char> {
    if tenths % 10 == 0 {
        decimal(tenths / 10)
    } else {
        decimal(tenths / 10) + seq!['.', digit_char(tenths % 10)]
    }
}

/// A number of nanoseconds as text. Below a microsecond it is given in
/// nanoseconds; below a millisecond in microseconds, rounded to the nearest
/// and up from the half; from there on in milliseconds, rounded to the
/// nearest tenth and up from the half.
///
/// Every digit is exact, however long the duration. A text made by dividing
/// the tenths as a floating-point number is the same below 2^53 tenths of a
/// millisecond, which is some 28,000 years, and may lose digits from there
/// on.
pub open spec fn rendered(ns: nat) -> Seq<char> {
    if ns < 1_000 {
        decimal(ns) + seq![' ', 'n', 's']
    } else if ns < 1_000_000 {
        decimal((ns + 500) / 1_000) + seq![' ', '\u{3bc}', 's']
    } else {
        decimal_tenths((ns + 50_000) / 100_000) + seq![' ', 'm', 's']
    }
}

fn digit_text(digit: u128) -> (text: &'static str)
    requires
        digit < 10,
    ensures
        text@ == seq![digit_char(digit as nat)],
{
    proof {
        reveal_strlit("0");
        reveal_strlit("1");
        reveal_strlit("2");
        reveal_strlit("3");
        reveal_strlit("4");
        reveal_strlit("5");
        reveal_strlit("6");
        reveal_strlit("7");
        reveal_strlit("8");
        reveal_strlit("9");
    }
    let text = if digit == 0 {
        "0"
    } else if digit == 1 {
        "1"
    } else if digit == 2 {
        "2"
    } else if digit == 3 {
        "3"
    } else if digit == 4 {
        "4"
    } else if digit == 5 {
        "5"
    } else if digit == 6 {
        "6"
    } else if digit == 7 {
        "7"
    } else if digit == 8 {
        "8"
    } else {
        "9"
    };
    assert(text@ =~= seq![digit_char(digit as nat)]);
    text
}

/// Appends `number` in decimal to `text`.
pub fn push_decimal(text: &mut String, number: u128)
    ensures
        final(text)@ == old(text)@ + decimal(number as nat),
    decreases number,
{
    if number >= 10 {
        push_decimal(text, number / 10);
    }
    text.append(digit_text(number % 10));
    assert(text@ =~= old(text)@ + decimal(number as nat));
}

/// A number of nanoseconds as text: "27 ns", "350 μs", "10.5 ms". The
/// arithmetic is on integers, so no digit is lost to rounding.
pub fn render(ns: u128) -> (text: String)
    ensures
        text@ == rendered(ns as nat),
{
    let mut text = String::new();
    if ns < 1_000 {
        push_decimal(&mut text, ns);
        proof {
            reveal_strlit(" ns");
        }
        text.append(" ns");
        assert(text@ =~= rendered(ns as nat));
    } else if ns < 1_000_000 {
        push_decimal(&mut text, (ns + 500) / 1_000);
        proof {
            reveal_strlit(" \u{3bc}s");
        }
        text.append(" \u{3bc}s");
        assert(text@ =~= rendered(ns as nat));
    } else {
        let carry: u128 = if ns % 100_000 >= 50_000 {
            1
        } else {
            0
        };
        let tenths: u128 = ns / 100_000 + carry;
        assert(tenths == (ns + 50_000) / 100_000);
        push_decimal(&mut text, tenths / 10);
        if tenths % 10 != 0 {
            proof {
                reveal_strlit(".");
            }
            text.append(".");
            text.append(digit_text(tenths % 10));
        }
        proof {
            reveal_strlit(" ms");
        }
        text.append(" ms");
        assert(text@ =~= rendered(ns as nat));
    }
    text
}

/// A duration that is shown as `render` writes its nanoseconds.
pub struct DisplayDuration(pub Duration);

impl View for DisplayDuration {
    type V = nat;

    open spec fn view(&self) -> nat {
        nanoseconds(self.0) as nat
    }
}

impl DisplayDuration {
    /// The duration as text.
    pub fn fmt(&self) -> (text: String)
        ensures
            text@ == rendered(self@),
    {
        render(as_nanos(&self.0))
    }
}

} // verus!
