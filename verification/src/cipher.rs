//! Encrypting and decrypting text.

use ascii::AsciiString;
use vstd::prelude::*;
use vstd::utf8::encode_utf8;

use crate::ascii_model::{
    codes_as_text, error_position, first_non_ascii_at, into_string, to_ascii_string,
};
use crate::ascii_text::{
    ascii_prefix_len, is_ascii_char, is_ascii_text, lemma_ascii_prefix, lemma_encoded_text,
    lemma_first_non_ascii_unique,
};
use crate::error::CaesarError;
use crate::key::Key;
use crate::shift::{
    is_lower, is_upper, lemma_shift_back, lemma_shift_idle, lemma_shift_stays_ascii, shift_code,
    shift_codes, Shift, ALPHABET,
};

verus! {

/// The character that `c` becomes when shifted `by` places.
pub open spec fn shift_char(c: char, by: int) -> char {
    shift_code(c as int, by) as char
}

/// The text that `text` becomes when each character is shifted `by` places.
pub open spec fn shift_text(text: Seq<char>, by: int) -> Seq<char> {
    Seq::new(text.len(), |i: int| shift_char(text[i], by))
}

/// What shifting `text` by `by` places gives: the shifted text where `text`
/// is ASCII, else the rejection at the first character that is not.
pub open spec fn shifted(text: Seq<char>, by: int) -> Result<Seq<char>, CaesarError> {
    if is_ascii_text(text) {
        Ok(shift_text(text, by))
    } else {
        Err(CaesarError::AsciiError(ascii_prefix_len(text) as usize))
    }
}

/// What encrypting `text` under the rotation amount `key` gives.
pub open spec fn encrypted(text: Seq<char>, key: int) -> Result<Seq<char>, CaesarError> {
    shifted(text, key)
}

/// What decrypting `text` under the rotation amount `key` gives.
pub open spec fn decrypted(text: Seq<char>, key: int) -> Result<Seq<char>, CaesarError> {
    shifted(text, -key)
}

/// A result with its text seen as a sequence of characters.
pub open spec fn outcome(result: Result<String, CaesarError>) -> Result<Seq<char>, CaesarError> {
    match result {
        Ok(text) => Ok(text@),
        Err(error) => Err(error),
    }
}

/// Shifting the bytes of an ASCII text and reading them as characters again
/// gives the shifted text.
proof fn lemma_shifted_bytes(text: Seq<char>, by: int)
    requires
        is_ascii_text(text),
    ensures
        codes_as_text(shift_codes(encode_utf8(text), by)) == shift_text(text, by),
{
    lemma_encoded_text(text);
    let bytes = encode_utf8(text);
    let out = codes_as_text(shift_codes(bytes, by));
    assert forall|i: int| 0 <= i < text.len() implies out[i] == shift_char(text[i], by) by {
        assert(is_ascii_char(text[i]));
        assert(bytes[i] as int == text[i] as int);
        let turned = shift_code(text[i] as int, by);
        assert(0 <= turned <= 127);
        assert(shift_codes(bytes, by)[i] == turned as u8);
    }
    assert(out =~= shift_text(text, by));
}

/// Shifting a character keeps its case and makes no letter of anything else.
pub proof fn lemma_shift_char_keeps_case(c: char, by: int)
    ensures
        is_upper(shift_char(c, by) as int) <==> is_upper(c as int),
        is_lower(shift_char(c, by) as int) <==> is_lower(c as int),
{
}

/// A character that is not a letter is left unchanged, by whatever amount it
/// is shifted.
pub proof fn lemma_shift_char_keeps_other(c: char, by: int)
    requires
        !is_upper(c as int),
        !is_lower(c as int),
    ensures
        shift_char(c, by) == c,
{
}

/// Shifting a character by nothing, or by a full turn of the wheel, changes
/// nothing.
pub proof fn lemma_shift_char_idle(c: char)
    ensures
        shift_char(c, 0) == c,
        shift_char(c, ALPHABET as int) == c,
{
    lemma_shift_idle(c as int);
}

/// Shifting an ASCII character gives an ASCII character, and shifting that
/// one back by the same amount gives the first one again.
pub proof fn lemma_shift_char_back(c: char, by: int)
    requires
        is_ascii_char(c),
    ensures
        is_ascii_char(shift_char(c, by)),
        shift_char(shift_char(c, by), -by) == c,
{
    lemma_shift_stays_ascii(c as int, by);
    lemma_shift_back(c as int, by);
}

/// Encrypting and decrypting keep the length of the text.
pub proof fn lemma_length_kept(text: Seq<char>, key: int)
    requires
        is_ascii_text(text),
    ensures
        encrypted(text, key) is Ok,
        encrypted(text, key)->Ok_0.len() == text.len(),
        decrypted(text, key) is Ok,
        decrypted(text, key)->Ok_0.len() == text.len(),
{
}

/// Under the key 0, and under the key 26, encrypting an ASCII text gives the
/// text itself.
pub proof fn lemma_idle_keys(text: Seq<char>)
    requires
        is_ascii_text(text),
    ensures
        encrypted(text, 0) == Ok::<Seq<char>, CaesarError>(text),
        encrypted(text, ALPHABET as int) == Ok::<Seq<char>, CaesarError>(text),
{
    assert forall|i: int| 0 <= i < text.len() implies shift_char(#[trigger] text[i], 0) == text[i]
        && shift_char(text[i], ALPHABET as int) == text[i] by {
        lemma_shift_char_idle(text[i]);
    }
    assert(shift_text(text, 0) =~= text);
    assert(shift_text(text, ALPHABET as int) =~= text);
}

/// Every ASCII text can be encrypted, what comes out can be decrypted, and
/// decrypting it under the same key gives the text that went in.
pub proof fn lemma_decrypt_undoes_encrypt(text: Seq<char>, key: int)
    requires
        is_ascii_text(text),
    ensures
        encrypted(text, key) is Ok,
        decrypted(encrypted(text, key)->Ok_0, key) == Ok::<Seq<char>, CaesarError>(text),
{
    let secret = shift_text(text, key);
    assert forall|i: int| 0 <= i < text.len() implies is_ascii_char(#[trigger] secret[i])
        && shift_char(secret[i], -key) == text[i] by {
        lemma_shift_char_back(text[i], key);
    }
    assert(shift_text(secret, -key) =~= text);
}

/// A text that is not ASCII is rejected, by `encrypt` and by `decrypt`, with
/// the position of its first character that is not ASCII. Everything before
/// that position is ASCII, and in the UTF-8 encoding of the text it is the
/// position of the first byte above 127.
pub proof fn lemma_rejected_at_first_non_ascii(text: Seq<char>, key: int)
    requires
        !is_ascii_text(text),
    ensures
        encrypted(text, key) == Err::<Seq<char>, CaesarError>(
            CaesarError::AsciiError(ascii_prefix_len(text) as usize),
        ),
        decrypted(text, key) == encrypted(text, key),
        ascii_prefix_len(text) < text.len(),
        !is_ascii_char(text[ascii_prefix_len(text) as int]),
        is_ascii_text(text.take(ascii_prefix_len(text) as int)),
        first_non_ascii_at(encode_utf8(text), ascii_prefix_len(text) as int),
{
    lemma_ascii_prefix(text);
    lemma_encoded_text(text);
}

/// Shifts `text` by `by` places.
fn shift_str(text: &str, by: i8) -> (result: Result<String, CaesarError>)
    ensures
        outcome(result) == shifted(text@, by as int),
        result matches Err(CaesarError::AsciiError(position)) ==> position == ascii_prefix_len(
            text@,
        ),
{
    proof {
        lemma_encoded_text(text@);
    }
    match to_ascii_string(text) {
        Ok(plain) => {
            proof {
                lemma_shifted_bytes(text@, by as int);
            }
            let turned: AsciiString = plain.shift(by);
            Ok(into_string(turned))
        },
        Err(error) => {
            proof {
                lemma_first_non_ascii_unique(
                    encode_utf8(text@),
                    error_position(error) as int,
                    ascii_prefix_len(text@) as int,
                );
            }
            Err(CaesarError::from(error))
        },
    }
}

/// Encrypts `text` by shifting its letters forward by the key. Characters
/// that are not letters, whitespace among them, stay as they are.
pub fn encrypt(text: &str, key: &Key) -> (result: Result<String, CaesarError>)
    ensures
        result is Ok <==> is_ascii_text(text@),
        outcome(result) == encrypted(text@, key.amount()),
        result matches Err(CaesarError::AsciiError(position)) ==> position == ascii_prefix_len(
            text@,
        ),
{
    shift_str(text, key.get_value())
}

/// Decrypts `text` by shifting its letters back by the key. Characters that
/// are not letters, whitespace among them, stay as they are.
pub fn decrypt(text: &str, key: &Key) -> (result: Result<String, CaesarError>)
    ensures
        result is Ok <==> is_ascii_text(text@),
        outcome(result) == decrypted(text@, key.amount()),
        result matches Err(CaesarError::AsciiError(position)) ==> position == ascii_prefix_len(
            text@,
        ),
{
    shift_str(text, -key.get_value())
}

} // verus!
