//! The error type shared by the cipher, the hex codec and the commands.

use vstd::prelude::*;

verus! {

/// Everything that can go wrong in this library.
///
/// Each operation's contract says exactly which variant it returns and on
/// which inputs, so a caller can match on the variant; `message` renders the
/// human-readable description that the command line prints.
#[derive(Clone, Copy, Debug, PartialEq, Eq, Structural)]
pub enum CipherError {
    /// The key lies outside the accepted range `0..=22`.
    InvalidKey,
    /// A hex string has an odd number of characters.
    OddLength,
    /// A hex string contains a character outside `0-9a-fA-F`.
    InvalidHexChar,
    /// Decrypted bytes do not form valid UTF-8 text.
    InvalidText,
}

impl CipherError {
    /// The human-readable description of this error.
    pub fn message(&self) -> (r: String)
        ensures
            *self == CipherError::InvalidKey ==> r@ == "key must be in range 0-22"@,
            *self == CipherError::OddLength ==> r@ == "hex string must have even length"@,
            *self == CipherError::InvalidHexChar ==> r@ == "invalid hex character"@,
            *self == CipherError::InvalidText ==> r@ == "invalid UTF-8"@,
    {
        match self {
            CipherError::InvalidKey => "key must be in range 0-22".to_owned(),
            CipherError::OddLength => "hex string must have even length".to_owned(),
            CipherError::InvalidHexChar => "invalid hex character".to_owned(),
            CipherError::InvalidText => "invalid UTF-8".to_owned(),
        }
    }
}

} // verus!
