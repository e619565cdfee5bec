use caesar::{decrypt, encrypt, CaesarError, Key};

fn key(value: i8) -> Key {
    Key::new(value).unwrap()
}

/// Every ASCII character once, in order.
fn all_ascii() -> String {
    (0u8..=127).map(char::from).collect()
}

#[test]
fn can_shift_by_3() {
    let shifted = "Vdpsoh Whaw + qxpehuv : 1234567890 ;-)";
    let key = Key::new(3).unwrap();

    assert_eq!(
        encrypt("Sample Text + numbers : 1234567890 ;-)", &key).unwrap(),
        shifted
    );
}

#[test]
fn encrypts_words_and_leaves_punctuation() {
    assert_eq!(encrypt("abc def.", &key(3)).unwrap(), "def ghi.");
}

#[test]
fn decrypts_words_and_leaves_punctuation() {
    assert_eq!(decrypt("def ghi.", &key(3)).unwrap(), "abc def.");
}

#[test]
fn decrypts_the_sample_text() {
    assert_eq!(
        decrypt("Vdpsoh Whaw + qxpehuv : 1234567890 ;-)", &key(3)).unwrap(),
        "Sample Text + numbers : 1234567890 ;-)"
    );
}

#[test]
fn encrypt_wraps_past_z() {
    assert_eq!(encrypt("xyz XYZ", &key(3)).unwrap(), "abc ABC");
    assert_eq!(encrypt("az AZ", &key(25)).unwrap(), "zy ZY");
    assert_eq!(encrypt("Hello, World!", &key(13)).unwrap(), "Uryyb, Jbeyq!");
}

#[test]
fn decrypt_wraps_before_a() {
    assert_eq!(decrypt("abc ABC", &key(3)).unwrap(), "xyz XYZ");
    assert_eq!(decrypt("a", &key(1)).unwrap(), "z");
    assert_eq!(decrypt("A", &key(26)).unwrap(), "A");
}

#[test]
fn empty_text_stays_empty() {
    assert_eq!(encrypt("", &key(7)).unwrap(), "");
    assert_eq!(decrypt("", &key(7)).unwrap(), "");
}

#[test]
fn round_trip_gives_the_text_back() {
    let text = all_ascii();
    for value in 0..=26 {
        let k = key(value);
        let secret = encrypt(&text, &k).unwrap();
        assert_eq!(decrypt(&secret, &k).unwrap(), text);
    }
}

#[test]
fn keys_0_and_26_change_nothing() {
    let text = all_ascii();
    assert_eq!(encrypt(&text, &key(0)).unwrap(), text);
    assert_eq!(encrypt(&text, &key(26)).unwrap(), text);
    assert_eq!(decrypt(&text, &key(0)).unwrap(), text);
    assert_eq!(decrypt(&text, &key(26)).unwrap(), text);
}

#[test]
fn case_is_kept() {
    let text = all_ascii();
    for value in 0..=26 {
        let secret = encrypt(&text, &key(value)).unwrap();
        for (before, after) in text.chars().zip(secret.chars()) {
            assert_eq!(before.is_ascii_uppercase(), after.is_ascii_uppercase());
            assert_eq!(before.is_ascii_lowercase(), after.is_ascii_lowercase());
        }
    }
}

#[test]
fn other_characters_are_kept() {
    let text = all_ascii();
    for value in 0..=26 {
        let secret = encrypt(&text, &key(value)).unwrap();
        let plain = decrypt(&text, &key(value)).unwrap();
        for ((before, after), back) in text.chars().zip(secret.chars()).zip(plain.chars()) {
            if !before.is_ascii_alphabetic() {
                assert_eq!(before, after);
                assert_eq!(before, back);
            }
        }
    }
}

#[test]
fn length_is_kept() {
    let text = "The quick brown fox jumps over the lazy dog, 42 times.\t\n";
    for value in 0..=26 {
        assert_eq!(encrypt(text, &key(value)).unwrap().len(), text.len());
        assert_eq!(decrypt(text, &key(value)).unwrap().len(), text.len());
    }
}

#[test]
fn letters_really_move() {
    let text = "abcdefghijklmnopqrstuvwxyz";
    for value in 1..=25 {
        let secret = encrypt(text, &key(value)).unwrap();
        assert_ne!(secret, text);
        for (before, after) in text.bytes().zip(secret.bytes()) {
            assert_eq!((before - b'a' + value as u8) % 26 + b'a', after);
        }
    }
}

#[test]
fn non_ascii_text_is_rejected_at_its_first_bad_byte() {
    assert_eq!(
        encrypt("caf\u{e9}", &key(3)),
        Err(CaesarError::AsciiError(3))
    );
    assert_eq!(
        decrypt("caf\u{e9}", &key(3)),
        Err(CaesarError::AsciiError(3))
    );
    assert_eq!(
        encrypt("\u{e9}t\u{e9}", &key(3)),
        Err(CaesarError::AsciiError(0))
    );
    assert_eq!(
        encrypt("a\u{e9}b\u{20ac}c", &key(0)),
        Err(CaesarError::AsciiError(1))
    );
    assert_eq!(
        encrypt("plain \u{1f600}", &key(26)),
        Err(CaesarError::AsciiError(6))
    );
}

#[test]
fn the_last_ascii_character_is_accepted() {
    assert_eq!(encrypt("\u{7f}", &key(5)).unwrap(), "\u{7f}");
    assert_eq!(encrypt("\u{80}", &key(5)), Err(CaesarError::AsciiError(0)));
}
