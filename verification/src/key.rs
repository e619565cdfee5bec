//! Validated rotation amounts.

use vstd::prelude::*;

use crate::error::CaesarError;

verus! {

/// The largest rotation amount a key may hold. It is a full turn of the
/// alphabet and therefore shifts nothing, exactly like `0`.
pub const MAX_KEY: i8 = 26;

/// Whether `value` is an acceptable rotation amount.
pub open spec fn valid_key_value(value: int) -> bool {
    0 <= value <= MAX_KEY
}

/// A rotation amount known to lie in `0..=26`.
///
/// The only way to obtain a `Key` is [`Key::new`], so holding one is proof that
/// the amount was validated.
#[derive(Debug, Clone, Copy, PartialEq, Eq)]
pub struct Key {
    value: i8,
}

impl Key {
    #[verifier::type_invariant]
    spec fn in_range(&self) -> bool {
        valid_key_value(self.value as int)
    }

    /// The rotation amount held by this key.
    pub closed spec fn amount(&self) -> int {
        self.value as int
    }

    /// Makes a key of `value` where it lies in `0..=26`, and else says that
    /// it does not.
    pub fn new(value: i8) -> (result: Result<Key, CaesarError>)
        ensures
            result is Ok <==> valid_key_value(value as int),
            result matches Ok(key) ==> key.amount() == value,
            result matches Err(error) ==> error == CaesarError::KeyRange(value),
    {
        if 0 <= value && value <= MAX_KEY {
            Ok(Key { value })
        } else {
            Err(CaesarError::KeyRange(value))
        }
    }

    /// The validated rotation amount.
    pub fn get_value(&self) -> (value: i8)
        ensures
            value == self.amount(),
            valid_key_value(value as int),
    {
        proof {
            use_type_invariant(self);
        }
        self.value
    }
}

} // verus!
