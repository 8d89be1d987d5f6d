//! The inverse of a number modulo 2^31, from the extended Euclidean algorithm
//! on arbitrary-precision integers.

use crate::arith::{
    bezout_identity, is_gcd, is_inverse, lemma_bezout_coefficient_inverts,
    lemma_coprime_to_modulus_iff_odd, lemma_odd_is_coprime_to_modulus,
};
use crate::MODULUS;
use num_bigint::BigInt;
use num_integer::Integer;
use num_traits::ToPrimitive;
use vstd::prelude::*;

verus! {

/// What the extended Euclidean algorithm found for a pair `(a, b)`: the
/// greatest common divisor and the coefficient of `a`, each present when it
/// fits in 128 bits.
pub struct Bezout {
    pub gcd: Option<i128>,
    pub x: Option<i128>,
}

/// The coefficient of `a` that `extended_gcd` of `num_integer` computes for
/// the pair `(a, b)` of arbitrary-precision integers.
pub uninterp spec fn bezout_coefficient(a: u64, b: u64) -> int;

/// `x` as an `i128`, where it is one.
pub open spec fn fit_i128(x: int) -> Option<i128> {
    if i128::MIN <= x <= i128::MAX {
        Some(x as i128)
    } else {
        None
    }
}

/// Runs `Integer::extended_gcd` of `num_integer` on `a` and `b` as `BigInt`s
/// and converts the `gcd` and `x` it returns with `ToPrimitive::to_i128`.
///
/// Trusted: `gcd` is the greatest common divisor of the pair, and `x` is the
/// coefficient named `bezout_coefficient`, each present exactly when it fits
/// in 128 bits; with some second coefficient `y` the two satisfy Bézout's
/// identity `a * x + b * y == gcd`.
#[verifier::external_body]
fn extended_gcd(a: u64, b: u64) -> (r: Bezout)
    ensures
        r.gcd matches Some(g) ==> is_gcd(a as int, b as int, g as int),
        r.gcd is None ==> forall|g: int| #[trigger] is_gcd(a as int, b as int, g) ==> g > i128::MAX,
        r.x == fit_i128(bezout_coefficient(a, b)),
        r.gcd matches Some(g) ==> exists|y: int| #[trigger]
            bezout_identity(a as int, bezout_coefficient(a, b), b as int, y, g as int),
{
    let e = BigInt::from(a).extended_gcd(&BigInt::from(b));
    Bezout { gcd: e.gcd.to_i128(), x: e.x.to_i128() }
}

/// A Bézout coefficient brought into `[0, 2^31)` by adding 2^31 once if it is
/// negative; none where that does not bring it there.
pub open spec fn normalized(x: int) -> Option<u64> {
    let v = if x < 0 {
        x + MODULUS
    } else {
        x
    };
    if 0 <= v < MODULUS {
        Some(v as u64)
    } else {
        None
    }
}

/// The inverse that a result of the extended Euclidean algorithm yields: the
/// normalized coefficient where the greatest common divisor is 1.
pub open spec fn inverse_from(e: Bezout) -> Option<u64> {
    match (e.gcd, e.x) {
        (Some(g), Some(x)) => if g == 1 {
            normalized(x as int)
        } else {
            None
        },
        _ => None,
    }
}

/// The inverse of `prime` modulo 2^31 that the extended Euclidean algorithm
/// yields: the normalized coefficient of an odd `prime`, none for an even one.
pub open spec fn modular_inverse(prime: u64) -> Option<u64> {
    if prime % 2 == 1 {
        normalized(bezout_coefficient(prime, MODULUS))
    } else {
        None
    }
}

/// Reads the inverse off a result of the extended Euclidean algorithm.
pub fn inverse_from_bezout(e: Bezout) -> (r: Option<u64>)
    ensures
        r == inverse_from(e),
{
    match (e.gcd, e.x) {
        (Some(g), Some(x)) => {
            if g != 1 {
                return None;
            }
            let m: i128 = MODULUS as i128;
            let v: i128 = if x < 0 {
                x + m
            } else {
                x
            };
            if 0 <= v && v < m {
                Some(v as u64)
            } else {
                None
            }
        },
        _ => None,
    }
}

/// The inverse of `prime` modulo 2^31: the number below 2^31 whose product
/// with `prime` is 1 modulo 2^31. There is none for an even `prime`.
pub fn math_mod_inverse(prime: u64) -> (r: Option<u64>)
    ensures
        r == modular_inverse(prime),
        r matches Some(v) ==> is_inverse(prime as int, v as int, MODULUS as int),
        prime % 2 == 0 ==> r is None,
{
    let e = extended_gcd(prime, MODULUS);
    proof {
        let x = bezout_coefficient(prime, MODULUS);
        if prime % 2 == 1 {
            lemma_odd_is_coprime_to_modulus(prime as int);
        }
        if e.gcd is Some {
            let g = e.gcd->0;
            lemma_coprime_to_modulus_iff_odd(prime as int, g as int);
            if g == 1 {
                let y = choose|y: int| #[trigger]
                    bezout_identity(prime as int, x, MODULUS as int, y, 1);
                lemma_bezout_coefficient_inverts(prime as int, x, y, MODULUS as int);
            }
        }
    }
    inverse_from_bezout(e)
}

} // verus!
