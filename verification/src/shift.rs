//! Rotating letters.

use ascii::{AsciiChar, AsciiString};
use vstd::prelude::*;

use crate::ascii_model::{char_at, char_code, char_from_code, string_codes};

verus! {

/// The number of letters on the wheel.
pub const ALPHABET: i16 = 26;

/// The code unit of `'A'`.
pub const UPPER_A: u8 = 65;

/// The code unit of `'Z'`.
pub const UPPER_Z: u8 = 90;

/// The code unit of `'a'`.
pub const LOWER_A: u8 = 97;

/// The code unit of `'z'`.
pub const LOWER_Z: u8 = 122;

/// Whether `code` is one of `'A'..='Z'`.
pub open spec fn is_upper(code: int) -> bool {
    UPPER_A <= code <= UPPER_Z
}

/// Whether `code` is one of `'a'..='z'`.
pub open spec fn is_lower(code: int) -> bool {
    LOWER_A <= code <= LOWER_Z
}

/// The letter `by` places after the letter `code`, counted on a wheel of 26
/// letters whose first letter is `base`. A negative `by` counts backwards.
pub open spec fn rotate(base: int, code: int, by: int) -> int {
    base + (code - base + by) % (ALPHABET as int)
}

/// The code unit that `code` becomes when shifted `by` places: letters move
/// within their own case, everything else stays.
pub open spec fn shift_code(code: int, by: int) -> int {
    if is_upper(code) {
        rotate(UPPER_A as int, code, by)
    } else if is_lower(code) {
        rotate(LOWER_A as int, code, by)
    } else {
        code
    }
}

/// The code units that `codes` become when each is shifted `by` places.
pub open spec fn shift_codes(codes: Seq<u8>, by: int) -> Seq<u8> {
    Seq::new(codes.len(), |i: int| shift_code(codes[i] as int, by) as u8)
}

/// Shifting keeps the case of a letter and makes no letter of anything else:
/// what comes out is an upper-case letter exactly where an upper-case letter
/// went in, and likewise for lower case.
pub proof fn lemma_shift_keeps_case(code: int, by: int)
    ensures
        is_upper(shift_code(code, by)) <==> is_upper(code),
        is_lower(shift_code(code, by)) <==> is_lower(code),
{
}

/// Whatever is not a letter is left unchanged, by whatever amount it is
/// shifted.
pub proof fn lemma_shift_keeps_other(code: int, by: int)
    requires
        !is_upper(code),
        !is_lower(code),
    ensures
        shift_code(code, by) == code,
{
}

/// Shifting by nothing, or by a full turn of the wheel, changes nothing.
pub proof fn lemma_shift_idle(code: int)
    ensures
        shift_code(code, 0) == code,
        shift_code(code, ALPHABET as int) == code,
{
}

/// Shifting back by the same amount undoes a shift.
pub proof fn lemma_shift_back(code: int, by: int)
    ensures
        shift_code(shift_code(code, by), -by) == code,
{
}

/// What comes out of a shift is ASCII exactly where what went in was.
pub proof fn lemma_shift_stays_ascii(code: int, by: int)
    ensures
        0 <= shift_code(code, by) <= 127 <==> 0 <= code <= 127,
{
}

/// Shifting a string of code units keeps its length, and shifting what comes
/// out back by the same amount gives the string that went in. So for each
/// amount the shift is one-to-one on the strings of a length.
pub proof fn lemma_shift_codes_back(codes: Seq<u8>, by: int)
    ensures
        shift_codes(codes, by).len() == codes.len(),
        shift_codes(shift_codes(codes, by), -by) == codes,
{
    assert forall|i: int| 0 <= i < codes.len() implies shift_codes(shift_codes(codes, by), -by)[i]
        == codes[i] by {
        lemma_shift_back(codes[i] as int, by);
    }
    assert(shift_codes(shift_codes(codes, by), -by) =~= codes);
}

/// Something that can be shifted: it can give a copy of itself moved `by`
/// another value.
pub trait Shift<U>: Sized {
    /// Whether `shifted` is `self` moved `by`.
    spec fn shifts_to(&self, by: U, shifted: &Self) -> bool;

    /// A copy of `self` moved `by`.
    fn shift(&self, by: U) -> (shifted: Self)
        ensures
            self.shifts_to(by, &shifted),
    ;
}

/// The letter `by` places after `code` on the wheel that starts at `base`.
fn rotate_letter(base: u8, code: u8, by: i8) -> (turned: AsciiChar)
    requires
        base <= code < base + ALPHABET,
        base + ALPHABET <= 128,
    ensures
        char_code(turned) == rotate(base as int, code as int, by as int),
{
    let index: i16 = (code - base) as i16;
    let place: i16 = (index + by as i16).checked_rem_euclid(ALPHABET).unwrap();
    char_from_code(base + place as u8).unwrap()
}

impl Shift<i8> for AsciiChar {
    open spec fn shifts_to(&self, by: i8, shifted: &Self) -> bool {
        char_code(*shifted) == shift_code(char_code(*self) as int, by as int)
    }

    /// The character `by` places further on: a letter moves within its own
    /// case, around the end of the alphabet where need be; any other
    /// character comes back as it is.
    fn shift(&self, by: i8) -> (shifted: Self)
        ensures
            char_code(shifted) == shift_code(char_code(*self) as int, by as int),
    {
        let code = self.as_byte();
        if UPPER_A <= code && code <= UPPER_Z {
            rotate_letter(UPPER_A, code, by)
        } else if LOWER_A <= code && code <= LOWER_Z {
            rotate_letter(LOWER_A, code, by)
        } else {
            *self
        }
    }
}

impl Shift<i8> for AsciiString {
    open spec fn shifts_to(&self, by: i8, shifted: &Self) -> bool {
        string_codes(*shifted) == shift_codes(string_codes(*self), by as int)
    }

    /// The string with each of its characters shifted `by` places, in the
    /// same order.
    fn shift(&self, by: i8) -> (shifted: Self)
        ensures
            string_codes(shifted) == shift_codes(string_codes(*self), by as int),
    {
        let len = self.len();
        let mut shifted = AsciiString::new();
        let mut i: usize = 0;
        while i < len
            invariant
                len == string_codes(*self).len(),
                i <= len,
                string_codes(shifted) == shift_codes(string_codes(*self).take(i as int), by as int),
            decreases len - i,
        {
            let ch = char_at(self, i).shift(by);
            shifted.push(ch);
            i += 1;
            assert(string_codes(shifted) =~= shift_codes(
                string_codes(*self).take(i as int),
                by as int,
            ));
        }
        assert(string_codes(*self).take(len as int) =~= string_codes(*self));
        shifted
    }
}

} // verus!
