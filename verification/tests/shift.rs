use ascii::{AsciiChar, AsciiString};
use caesar::Shift;

fn ch(c: char) -> AsciiChar {
    AsciiChar::from_ascii(c).unwrap()
}

fn string(s: &str) -> AsciiString {
    AsciiString::from_ascii(s).unwrap()
}

#[test]
fn a_shifted_back_by_one_is_z() {
    assert_eq!(ch('a').shift(-1), AsciiChar::z);
    assert_eq!(ch('A').shift(-1), AsciiChar::Z);
}

#[test]
fn z_shifted_on_by_one_is_a() {
    assert_eq!(ch('z').shift(1), AsciiChar::a);
    assert_eq!(ch('Z').shift(1), AsciiChar::A);
}

#[test]
fn letters_shift_within_their_case() {
    assert_eq!(ch('a').shift(3), AsciiChar::d);
    assert_eq!(ch('S').shift(3), AsciiChar::V);
    assert_eq!(ch('m').shift(13), AsciiChar::z);
    assert_eq!(ch('n').shift(13), AsciiChar::a);
    assert_eq!(ch('d').shift(-3), AsciiChar::a);
    assert_eq!(ch('c').shift(-26), AsciiChar::c);
}

#[test]
fn every_amount_is_taken_around_the_wheel() {
    assert_eq!(ch('a').shift(127), AsciiChar::x);
    assert_eq!(ch('z').shift(127), AsciiChar::w);
    assert_eq!(ch('a').shift(-128), AsciiChar::c);
    assert_eq!(ch('Z').shift(-128), AsciiChar::B);
    for by in i8::MIN..=i8::MAX {
        for code in (b'a'..=b'z').chain(b'A'..=b'Z') {
            let base = if code >= b'a' { b'a' } else { b'A' };
            let place = (i32::from(code - base) + i32::from(by)).rem_euclid(26);
            let shifted = AsciiChar::from_ascii(code).unwrap().shift(by);
            assert_eq!(i32::from(shifted.as_byte()), i32::from(base) + place);
        }
    }
}

#[test]
fn what_is_no_letter_does_not_shift() {
    for by in i8::MIN..=i8::MAX {
        for code in 0u8..=127 {
            if !code.is_ascii_alphabetic() {
                let plain = AsciiChar::from_ascii(code).unwrap();
                assert_eq!(plain.shift(by), plain);
            }
        }
    }
}

#[test]
fn shifting_back_undoes_a_shift() {
    for by in -127..=i8::MAX {
        for code in 0u8..=127 {
            let plain = AsciiChar::from_ascii(code).unwrap();
            assert_eq!(plain.shift(by).shift(-by), plain);
        }
    }
}

#[test]
fn a_string_shifts_character_by_character() {
    assert_eq!(string("abc def.").shift(3), string("def ghi."));
    assert_eq!(string("def ghi.").shift(-3), string("abc def."));
    assert_eq!(string("").shift(9), string(""));
    assert_eq!(string("Zebra-123").shift(1), string("Afcsb-123"));
}

#[test]
fn a_shifted_string_keeps_its_length_and_order() {
    let text = string("The quick brown fox jumps over the lazy dog");
    for by in i8::MIN..=i8::MAX {
        let shifted = text.shift(by);
        assert_eq!(shifted.len(), text.len());
        for i in 0..text.len() {
            assert_eq!(shifted[i], text[i].shift(by));
        }
    }
}
