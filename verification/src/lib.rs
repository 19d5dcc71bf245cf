//! A byte-wise additive (Caesar-style) shift cipher with a bounded key,
//! together with the lowercase-hex codec used to carry ciphertext through
//! text interfaces, and the two end-to-end commands that compose them.

pub mod caesar;
pub mod command;
pub mod error;
pub mod hex;
