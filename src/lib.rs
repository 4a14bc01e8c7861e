//! Modular exponentiation over big-endian byte strings: `base^exponent mod modulus`,
//! returned in its shortest encoding or right-aligned in a fixed width.

pub mod encoding;
pub mod laws;
pub mod modexp;

pub use modexp::{big_mod_exp, big_mod_exp_fixed, BigModExpParams, ModExpError};
