use caesar::{CaesarError, Key};

#[test]
fn keys_in_range_are_accepted() {
    for value in 0..=26 {
        assert_eq!(Key::new(value).unwrap().get_value(), value);
    }
}

#[test]
fn keys_out_of_range_are_rejected() {
    for value in i8::MIN..=i8::MAX {
        if !(0..=26).contains(&value) {
            assert_eq!(Key::new(value), Err(CaesarError::KeyRange(value)));
        }
    }
}

#[test]
fn key_bounds() {
    assert!(Key::new(0).is_ok());
    assert!(Key::new(26).is_ok());
    assert_eq!(Key::new(27), Err(CaesarError::KeyRange(27)));
    assert_eq!(Key::new(-1), Err(CaesarError::KeyRange(-1)));
    assert_eq!(Key::new(i8::MAX), Err(CaesarError::KeyRange(127)));
    assert_eq!(Key::new(i8::MIN), Err(CaesarError::KeyRange(-128)));
}
