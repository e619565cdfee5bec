//! What this library assumes about the `ascii` crate.
//!
//! The types of that crate are opaque to the verifier. Each gets a model here:
//! a character is its code unit, a string is the sequence of its code units,
//! and a conversion error is the position it reports. The contracts below say
//! how the crate's functions act on those models. None of them is proved; the
//! rest of the library is proved from them.

use ascii::{AsAsciiStrError, AsciiChar, AsciiString, IntoAsciiString, ToAsciiCharError};
use vstd::prelude::*;
use vstd::utf8::encode_utf8;

verus! {

/// `ascii::AsciiChar`, one ASCII character.
#[verifier::external_type_specification]
#[verifier::external_body]
pub struct ExAsciiChar(ascii::AsciiChar);

/// `ascii::ToAsciiCharError`, the failure to make a character of a value
/// above 127. It carries nothing.
#[verifier::external_type_specification]
#[verifier::external_body]
pub struct ExToAsciiCharError(ascii::ToAsciiCharError);

/// `ascii::AsciiString`, a growable string of ASCII characters.
#[verifier::external_type_specification]
#[verifier::external_body]
pub struct ExAsciiString(ascii::AsciiString);

/// `ascii::AsAsciiStrError`, the failure to read bytes as ASCII. It carries
/// the position of the first byte that is not.
#[verifier::external_type_specification]
#[verifier::external_body]
pub struct ExAsAsciiStrError(ascii::AsAsciiStrError);

/// The code unit of an ASCII character: what `AsciiChar::as_byte` returns.
pub uninterp spec fn char_code(ch: AsciiChar) -> u8;

/// `AsciiChar::as_byte` is a cast of the character to its code unit and has
/// no other effect, so it returns the same value for the same character.
pub assume_specification[ AsciiChar::as_byte ](ch: AsciiChar) -> (code: u8)
    ensures
        code == char_code(ch),
;

/// `AsciiChar::from_ascii` on a `u8`: succeeds exactly on the values
/// `0..=127`, and the character it then returns has the given value as its
/// code unit.
#[verifier::external_body]
pub(crate) fn char_from_code(code: u8) -> (result: Result<AsciiChar, ToAsciiCharError>)
    ensures
        match result {
            Ok(ch) => code <= 127 && char_code(ch) == code,
            Err(_) => code > 127,
        },
{
    AsciiChar::from_ascii(code)
}

/// The code units that an ASCII string holds, first to last.
pub uninterp spec fn string_codes(s: AsciiString) -> Seq<u8>;

/// `AsciiString::new` returns a string that holds nothing.
pub assume_specification[ AsciiString::new ]() -> (s: AsciiString)
    ensures
        string_codes(s) == Seq::<u8>::empty(),
;

/// `AsciiString::len` returns the number of code units held.
pub assume_specification[ AsciiString::len ](s: &AsciiString) -> (len: usize)
    ensures
        len == string_codes(*s).len(),
;

/// `AsciiString::push` appends one character and leaves what was already
/// there in place.
pub assume_specification[ AsciiString::push ](s: &mut AsciiString, ch: AsciiChar)
    ensures
        string_codes(*final(s)) == string_codes(*old(s)).push(char_code(ch)),
;

/// Indexing an `AsciiString` by a `usize` gives the character at that
/// position. It panics past the end, which the precondition rules out.
#[verifier::external_body]
pub(crate) fn char_at(s: &AsciiString, index: usize) -> (ch: AsciiChar)
    requires
        index < string_codes(*s).len(),
    ensures
        char_code(ch) == string_codes(*s)[index as int],
{
    s[index]
}

/// The position that a failed conversion reports: what
/// `AsAsciiStrError::valid_up_to` returns.
pub uninterp spec fn error_position(error: AsAsciiStrError) -> usize;

/// `AsAsciiStrError::valid_up_to` reads the position stored in the error.
pub assume_specification[ AsAsciiStrError::valid_up_to ](error: AsAsciiStrError) -> (position:
    usize)
    ensures
        position == error_position(error),
;

/// Whether every byte is a 7-bit ASCII code unit.
pub open spec fn all_ascii(bytes: Seq<u8>) -> bool {
    forall|i: int| 0 <= i < bytes.len() ==> #[trigger] bytes[i] <= 127
}

/// Whether `position` is where the first byte that is not ASCII stands.
pub open spec fn first_non_ascii_at(bytes: Seq<u8>, position: int) -> bool {
    &&& 0 <= position < bytes.len()
    &&& bytes[position] > 127
    &&& all_ascii(bytes.take(position))
}

/// `IntoAsciiString::into_ascii_string` on a `&str` looks at the bytes of the
/// text, which are its UTF-8 encoding. Where all of them are ASCII it returns
/// a string that holds exactly those bytes. Otherwise it fails, and the
/// `AsAsciiStrError` inside the failure reports the position of the first
/// byte that is not ASCII.
#[verifier::external_body]
pub(crate) fn to_ascii_string(text: &str) -> (result: Result<AsciiString, AsAsciiStrError>)
    ensures
        match result {
            Ok(s) => all_ascii(encode_utf8(text@)) && string_codes(s) == encode_utf8(text@),
            Err(error) => first_non_ascii_at(encode_utf8(text@), error_position(error) as int),
        },
{
    match text.into_ascii_string() {
        Ok(s) => Ok(s),
        Err(error) => Err(error.ascii_error()),
    }
}

/// The characters whose code points are the given code units.
pub open spec fn codes_as_text(codes: Seq<u8>) -> Seq<char> {
    Seq::new(codes.len(), |i: int| codes[i] as char)
}

/// `String::from` on an `AsciiString` reuses the buffer as UTF-8. Every code
/// unit of an ASCII string is a one-byte character of the same value, so the
/// text that comes out has one character per code unit.
#[verifier::external_body]
pub(crate) fn into_string(s: AsciiString) -> (text: String)
    ensures
        text@ == codes_as_text(string_codes(s)),
{
    String::from(s)
}

} // verus!
