//! The errors that the cipher reports.

use ascii::AsAsciiStrError;
use vstd::prelude::*;
use vstd::std_specs::convert::FromSpecImpl;
use vstd::string::StringExecFns;

use crate::ascii_model::error_position;
use crate::decimal::{decimal, decimal_text, digits, digits_text};

verus! {

/// Why a key or a text was rejected.
#[derive(Debug, Clone, Copy, PartialEq, Eq, Structural)]
pub enum CaesarError {
    /// The text holds a byte outside the 7-bit ASCII range; the field is the
    /// zero-based position of the first such byte.
    AsciiError(usize),
    /// The requested key lies outside `0..=26`; the field is the rejected value.
    KeyRange(i8),
}

impl CaesarError {
    /// The words that describe this error.
    pub open spec fn description(&self) -> Seq<char> {
        match *self {
            CaesarError::AsciiError(position) => "Non-ASCII char at pos "@ + digits(
                position as nat,
            ),
            CaesarError::KeyRange(value) => "Key "@ + decimal(value as int)
                + " is not in range 0..26"@,
        }
    }

    /// Describes this error in words, for showing to a person.
    pub fn message(&self) -> (text: String)
        ensures
            text@ == self.description(),
    {
        match *self {
            CaesarError::AsciiError(position) => {
                let mut text = String::from_str("Non-ASCII char at pos ");
                text.append(digits_text(position).as_str());
                text
            },
            CaesarError::KeyRange(value) => {
                let mut text = String::from_str("Key ");
                text.append(decimal_text(value).as_str());
                text.append(" is not in range 0..26");
                text
            },
        }
    }
}

impl From<AsAsciiStrError> for CaesarError {
    /// The rejection of a text at the position that `error` reports.
    fn from(error: AsAsciiStrError) -> (rejection: Self) {
        CaesarError::AsciiError(error.valid_up_to())
    }
}

impl FromSpecImpl<AsAsciiStrError> for CaesarError {
    open spec fn obeys_from_spec() -> bool {
        true
    }

    open spec fn from_spec(error: AsAsciiStrError) -> Self {
        CaesarError::AsciiError(error_position(error))
    }
}

} // verus!
