//! Reversible obfuscation of identifiers below 2^31: multiplication by an odd
//! number modulo 2^31 followed by an XOR mask, undone by the XOR and a
//! multiplication by the modular inverse.

use vstd::prelude::*;

pub mod arith;
pub mod inverse;
pub mod obfuscator;

pub use crate::inverse::{inverse_from_bezout, math_mod_inverse, Bezout};
pub use crate::obfuscator::{ConstructionError, Optimus, Parameters};

verus! {

/// The modulus of the obfuscation, 2^31: identifiers lie below it.
pub const MODULUS: u64 = 0x8000_0000;

/// The largest identifier, 2^31 - 1, which is also the bit mask that reduces modulo 2^31.
pub const MAX_INT: u64 = 0x7fff_ffff;

/// The smallest mask that is drawn at random, 2^20.
pub const MIN_RANDOM: u64 = 0x10_0000;

} // verus!
