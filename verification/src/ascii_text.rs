//! ASCII text, and how it shows in the bytes of a string.
//!
//! A Rust string is a sequence of characters stored as UTF-8. The cipher
//! speaks of characters, the `ascii` crate of bytes; the lemmas here carry
//! facts from one to the other.

use vstd::prelude::*;
use vstd::utf8::{encode_scalar, encode_utf8};

use crate::ascii_model::{all_ascii, first_non_ascii_at};

verus! {

/// Whether `c` is one of the 128 ASCII characters.
pub open spec fn is_ascii_char(c: char) -> bool {
    c as int <= 127
}

/// Whether every character of `text` is ASCII.
pub open spec fn is_ascii_text(text: Seq<char>) -> bool {
    forall|i: int| 0 <= i < text.len() ==> is_ascii_char(#[trigger] text[i])
}

/// The number of characters of `text` that come before the first one that is
/// not ASCII; the whole length where there is none.
pub open spec fn ascii_prefix_len(text: Seq<char>) -> nat
    decreases text.len(),
{
    if text.len() == 0 || !is_ascii_char(text[0]) {
        0
    } else {
        1 + ascii_prefix_len(text.drop_first())
    }
}

/// The UTF-8 encoding of one character: an ASCII character is a single byte
/// of the same value, and any other character starts with a byte above 127.
proof fn lemma_encoded_char(c: char)
    ensures
        is_ascii_char(c) ==> encode_scalar(c as u32) == seq![c as u8] && c as u8 == c as int,
        !is_ascii_char(c) ==> encode_scalar(c as u32).len() > 0 && encode_scalar(c as u32)[0]
            > 127,
{
    let scalar = c as u32;
    if is_ascii_char(c) {
        assert((scalar & 0x7F) as u8 == scalar as u8) by (bit_vector)
            requires
                scalar <= 0x7F,
        ;
    } else {
        assert((0xC0u8 | ((scalar >> 6) & 0x1F) as u8) > 127) by (bit_vector);
        assert((0xE0u8 | ((scalar >> 12) & 0x0F) as u8) > 127) by (bit_vector);
        assert((0xF0u8 | ((scalar >> 18) & 0x7) as u8) > 127) by (bit_vector);
    }
}

/// How the ASCII characters at the start of a text show in its UTF-8
/// encoding: each is one byte of the same value, and the character that ends
/// the run, if there is one, starts with a byte above 127.
proof fn lemma_encoded_ascii_prefix(text: Seq<char>)
    ensures
        ascii_prefix_len(text) <= text.len(),
        ascii_prefix_len(text) <= encode_utf8(text).len(),
        forall|i: int|
            0 <= i < ascii_prefix_len(text) ==> is_ascii_char(#[trigger] text[i]) && encode_utf8(
                text,
            )[i] as int == text[i] as int,
        ascii_prefix_len(text) < text.len() ==> {
            &&& ascii_prefix_len(text) < encode_utf8(text).len()
            &&& encode_utf8(text)[ascii_prefix_len(text) as int] > 127
            &&& !is_ascii_char(text[ascii_prefix_len(text) as int])
        },
        ascii_prefix_len(text) == text.len() ==> encode_utf8(text).len() == text.len(),
    decreases text.len(),
{
    if text.len() > 0 {
        let rest = text.drop_first();
        let head = encode_scalar(text[0] as u32);
        assert(encode_utf8(text) == head + encode_utf8(rest));
        lemma_encoded_char(text[0]);
        if is_ascii_char(text[0]) {
            lemma_encoded_ascii_prefix(rest);
            assert forall|i: int| 0 <= i < ascii_prefix_len(text) implies is_ascii_char(
                #[trigger] text[i],
            ) && encode_utf8(text)[i] as int == text[i] as int by {
                if i > 0 {
                    assert(text[i] == rest[i - 1]);
                    assert(encode_utf8(text)[i] == encode_utf8(rest)[i - 1]);
                }
            }
            if ascii_prefix_len(text) < text.len() {
                let p = ascii_prefix_len(rest) as int;
                assert(text[p + 1] == rest[p]);
                assert(encode_utf8(text)[p + 1] == encode_utf8(rest)[p]);
            }
        }
    }
}

/// Where the run of ASCII characters at the start of a text ends: within the
/// text, at a character that is not ASCII, exactly where the text is not
/// ASCII as a whole.
pub proof fn lemma_ascii_prefix(text: Seq<char>)
    ensures
        ascii_prefix_len(text) <= text.len(),
        is_ascii_text(text.take(ascii_prefix_len(text) as int)),
        is_ascii_text(text) <==> ascii_prefix_len(text) == text.len(),
        ascii_prefix_len(text) < text.len() ==> !is_ascii_char(
            text[ascii_prefix_len(text) as int],
        ),
{
    lemma_encoded_ascii_prefix(text);
}

/// An ASCII text and its UTF-8 encoding agree byte for character, and a text
/// that is not ASCII has its first byte above 127 where its first character
/// that is not ASCII stands.
pub proof fn lemma_encoded_text(text: Seq<char>)
    ensures
        is_ascii_text(text) <==> all_ascii(encode_utf8(text)),
        is_ascii_text(text) ==> encode_utf8(text).len() == text.len(),
        is_ascii_text(text) ==> forall|i: int|
            0 <= i < text.len() ==> (#[trigger] encode_utf8(text)[i]) as int == text[i] as int,
        !is_ascii_text(text) ==> first_non_ascii_at(
            encode_utf8(text),
            ascii_prefix_len(text) as int,
        ),
{
    lemma_encoded_ascii_prefix(text);
    let bytes = encode_utf8(text);
    let n = ascii_prefix_len(text) as int;
    if n < text.len() {
        assert(!is_ascii_char(text[n]));
        assert forall|i: int| 0 <= i < n implies #[trigger] bytes.take(n)[i] <= 127 by {
            assert(is_ascii_char(text[i]));
        }
    } else {
        assert forall|i: int| 0 <= i < bytes.len() implies #[trigger] bytes[i] <= 127 by {
            assert(is_ascii_char(text[i]));
        }
    }
}

/// The first byte that is not ASCII stands at one position only.
pub proof fn lemma_first_non_ascii_unique(bytes: Seq<u8>, p: int, q: int)
    requires
        first_non_ascii_at(bytes, p),
        first_non_ascii_at(bytes, q),
    ensures
        p == q,
{
    if p < q {
        assert(bytes.take(q)[p] == bytes[p]);
    }
    if q < p {
        assert(bytes.take(p)[q] == bytes[q]);
    }
}

} // verus!
