//! Numbers written out in decimal.

use vstd::prelude::*;
use vstd::string::{StrSliceExecFns, StringExecFns};

verus! {

/// The character for a single digit: `'0'` for 0 up to `'9'` for 9.
pub open spec fn digit(d: int) -> char {
    ('0' as int + d) as char
}

/// The decimal digits of a natural number, most significant first, with no
/// leading zero (so 0 itself is the one digit `0`).
pub open spec fn digits(n: nat) -> Seq<char>
    decreases n,
{
    if n < 10 {
        seq![digit(n as int)]
    } else {
        digits(n / 10).push(digit((n % 10) as int))
    }
}

/// An integer in decimal: a minus sign where it is negative, then the digits
/// of its magnitude.
pub open spec fn decimal(n: int) -> Seq<char> {
    if n < 0 {
        seq!['-'] + digits((-n) as nat)
    } else {
        digits(n as nat)
    }
}

/// The text of the single digit `d`.
fn digit_text(d: usize) -> (text: &'static str)
    requires
        d < 10,
    ensures
        text@ == seq![digit(d as int)],
{
    proof {
        reveal_strlit("0123456789");
    }
    let text = "0123456789".substring_ascii(d, d + 1);
    assert(text@ =~= seq![digit(d as int)]);
    text
}

/// The digits of `n` as text.
pub(crate) fn digits_text(n: usize) -> (text: String)
    ensures
        text@ == digits(n as nat),
    decreases n,
{
    if n < 10 {
        String::from_str(digit_text(n))
    } else {
        let mut text = digits_text(n / 10);
        text.append(digit_text(n % 10));
        assert(text@ =~= digits(n as nat));
        text
    }
}

/// The number `n` as text.
pub(crate) fn decimal_text(n: i8) -> (text: String)
    ensures
        text@ == decimal(n as int),
{
    if n < 0 {
        let mut text = String::from_str("-");
        proof {
            reveal_strlit("-");
        }
        text.append(digits_text((-(n as i16)) as usize).as_str());
        assert(text@ =~= decimal(n as int));
        text
    } else {
        digits_text(n as usize)
    }
}

} // verus!
