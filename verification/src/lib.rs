//! A Caesar (shift) cipher over 7-bit ASCII text.
//!
//! A [`Key`] is a rotation amount that has been checked to lie in `0..=26`.
//! [`encrypt`] rotates every Latin letter of a text forward by the key and
//! [`decrypt`] rotates it back; every other character is left alone. Text that
//! is not pure ASCII is rejected with the position of the first offending byte.

pub mod ascii_model;
pub mod ascii_text;
pub mod cipher;
pub mod decimal;
pub mod error;
pub mod key;
pub mod shift;

pub use crate::cipher::{decrypt, encrypt};
pub use crate::error::CaesarError;
pub use crate::key::Key;
pub use crate::shift::Shift;
