//! The obfuscator: its parameters, their validation, and the two transforms.

use crate::arith::{is_inverse, lemma_multiply_then_invert};
use crate::inverse::{math_mod_inverse, modular_inverse};
use crate::{MAX_INT, MIN_RANDOM, MODULUS};
use rand::Rng;
use vstd::prelude::*;

verus! {

/// Why an obfuscator could not be constructed.
#[derive(Debug, Clone, Copy, PartialEq, Eq)]
pub enum ConstructionError {
    /// The prime is below 2, at or above 2^31 - 1, or even and not 2.
    InvalidPrime,
    /// The mask that was given is at or above 2^31.
    InvalidRandom,
    /// No inverse was given and the prime has none modulo 2^31.
    NoModularInverse,
}

/// A prime that an obfuscator accepts: 2 or odd, in `[2, 2^31 - 1)`.
pub open spec fn valid_prime(prime: u64) -> bool {
    2 <= prime < MAX_INT && (prime == 2 || prime % 2 == 1)
}

/// The three numbers that fix an obfuscation; the model of an `Optimus`.
pub struct Parameters {
    pub prime: u64,
    pub mod_inverse: u64,
    pub random: u64,
}

impl Parameters {
    /// What every constructed obfuscator satisfies: a valid prime and a mask
    /// below 2^31. The inverse is not part of it, since one that the caller
    /// gives is taken unchecked.
    pub open spec fn wf(self) -> bool {
        valid_prime(self.prime) && self.random < MODULUS
    }

    /// The inverse undoes the prime: their product is 1 modulo 2^31.
    pub open spec fn inverts(self) -> bool {
        (self.prime * self.mod_inverse) % (MODULUS as int) == 1
    }

    /// `n` times the prime modulo 2^31, then XOR with the mask.
    pub open spec fn encode(self, n: u64) -> u64 {
        (((n * self.prime) % (MODULUS as int)) as u64) ^ self.random
    }

    /// `n` XOR the mask, then times the inverse modulo 2^31.
    pub open spec fn decode(self, n: u64) -> u64 {
        (((n ^ self.random) * self.mod_inverse) % (MODULUS as int)) as u64
    }
}

/// The error, if any, with which construction from these arguments fails.
/// The checks come in this order: the prime, the mask, the inverse.
pub open spec fn rejection(prime: u64, mod_inverse: Option<u64>, random: Option<u64>) -> Option<
    ConstructionError,
> {
    if !valid_prime(prime) {
        Some(ConstructionError::InvalidPrime)
    } else if random is Some && random->0 >= MODULUS {
        Some(ConstructionError::InvalidRandom)
    } else if mod_inverse is None && modular_inverse(prime) is None {
        Some(ConstructionError::NoModularInverse)
    } else {
        None
    }
}

/// An obfuscator of identifiers below 2^31, immutable once constructed.
#[derive(Debug, Clone, Copy)]
pub struct Optimus {
    prime: u64,
    mod_inverse: u64,
    random: u64,
}

impl View for Optimus {
    type V = Parameters;

    closed spec fn view(&self) -> Parameters {
        Parameters { prime: self.prime, mod_inverse: self.mod_inverse, random: self.random }
    }
}

/// Draws a number with `Rng::gen_range` of `rand` on the half-open range
/// `low..high`, from the generator that `rand::thread_rng` hands out.
///
/// Trusted: the number lies in the range. Nothing is claimed of which number
/// it is. `gen_range` panics on an empty range, which `requires` leaves out.
#[verifier::external_body]
fn random_in_range(low: u64, high: u64) -> (r: u64)
    requires
        low < high,
    ensures
        low <= r < high,
{
    rand::thread_rng().gen_range(low..high)
}

impl Optimus {
    #[verifier::type_invariant]
    spec fn well_formed(self) -> bool {
        self@.wf()
    }

    /// What `new` returns for given arguments: the error that `rejection`
    /// names, or else an obfuscator with the given prime, the inverse that was
    /// given or else computed, and the mask that was given or else some mask
    /// in `[2^20, 2^31)`.
    pub open spec fn constructs(
        prime: u64,
        mod_inverse: Option<u64>,
        random: Option<u64>,
        r: Result<Optimus, ConstructionError>,
    ) -> bool {
        match r {
            Ok(o) => {
                &&& rejection(prime, mod_inverse, random) is None
                &&& o@.prime == prime
                &&& mod_inverse matches Some(i) ==> o@.mod_inverse == i
                &&& mod_inverse is None ==> modular_inverse(prime) == Some(o@.mod_inverse)
                &&& random matches Some(m) ==> o@.random == m
                &&& random is None ==> MIN_RANDOM <= o@.random < MODULUS
            },
            Err(e) => rejection(prime, mod_inverse, random) == Some(e),
        }
    }

    /// Validates the prime, then the mask if one is given; computes the
    /// inverse if none is given; draws the mask if none is given.
    pub fn new(prime: u64, mod_inverse: Option<u64>, random: Option<u64>) -> (r: Result<
        Self,
        ConstructionError,
    >)
        ensures
            Self::constructs(prime, mod_inverse, random, r),
            !valid_prime(prime) ==> r == Err::<Self, _>(ConstructionError::InvalidPrime),
            valid_prime(prime) && random is Some && random->0 >= MODULUS ==> r == Err::<Self, _>(
                ConstructionError::InvalidRandom,
            ),
            r matches Ok(o) ==> o@.wf(),
            r matches Ok(o) ==> mod_inverse is None ==> is_inverse(
                prime as int,
                o@.mod_inverse as int,
                MODULUS as int,
            ),
    {
        assert(prime & 1 == prime % 2) by (bit_vector);
        if prime >= MAX_INT || prime < 2 || (prime != 2 && prime & 1 != 1) {
            return Err(ConstructionError::InvalidPrime);
        }
        if let Some(m) = random {
            if m >= MODULUS {
                return Err(ConstructionError::InvalidRandom);
            }
        }
        let inverse = match mod_inverse {
            Some(i) => i,
            None => match math_mod_inverse(prime) {
                Some(i) => i,
                None => {
                    return Err(ConstructionError::NoModularInverse);
                },
            },
        };
        let mask = match random {
            Some(m) => m,
            None => random_in_range(MIN_RANDOM, MODULUS),
        };
        Ok(Optimus { prime, mod_inverse: inverse, random: mask })
    }

    /// Obfuscates an identifier below 2^31.
    pub fn encode(&self, n: u64) -> (r: u64)
        requires
            n < MODULUS,
        ensures
            r == self@.encode(n),
            r < MODULUS,
    {
        proof {
            use_type_invariant(self);
        }
        assert(n * self.prime < 0x4000_0000_0000_0000) by (nonlinear_arith)
            requires
                n < 0x8000_0000,
                self.prime < 0x8000_0000,
        ;
        let product = n * self.prime;
        let low = product & MAX_INT;
        let mask = self.random;
        assert(low == product % 0x8000_0000 && low ^ mask < 0x8000_0000) by (bit_vector)
            requires
                low == product & 0x7fff_ffff,
                mask < 0x8000_0000,
        ;
        low ^ mask
    }

    /// Recovers the identifier from its obfuscated form.
    pub fn decode(&self, n: u64) -> (r: u64)
        requires
            n < MODULUS,
        ensures
            r == self@.decode(n),
            r < MODULUS,
    {
        // The inverse may be any `u64` that the caller gave, so the product is
        // formed in 128 bits.
        let unmasked = (n ^ self.random) as u128;
        let inverse = self.mod_inverse as u128;
        assert(unmasked * inverse <= 0xffff_ffff_ffff_ffff * 0xffff_ffff_ffff_ffff)
            by (nonlinear_arith)
            requires
                unmasked <= 0xffff_ffff_ffff_ffff,
                inverse <= 0xffff_ffff_ffff_ffff,
        ;
        let product = unmasked * inverse;
        let low = product & (MAX_INT as u128);
        assert(low == product % 0x8000_0000 && low < 0x8000_0000) by (bit_vector)
            requires
                low == product & 0x7fff_ffff,
        ;
        low as u64
    }

    /// The prime.
    pub fn prime(&self) -> (r: u64)
        ensures
            r == self@.prime,
    {
        self.prime
    }

    /// The inverse of the prime that decoding multiplies by.
    pub fn mod_inverse(&self) -> (r: u64)
        ensures
            r == self@.mod_inverse,
    {
        self.mod_inverse
    }

    /// The XOR mask.
    pub fn random(&self) -> (r: u64)
        ensures
            r == self@.random,
    {
        self.random
    }
}

/// Decoding undoes encoding: an obfuscator whose inverse matches its prime
/// gives back every identifier below 2^31 from its obfuscated form.
pub proof fn lemma_decode_inverts_encode(o: Optimus, n: u64)
    requires
        o@.inverts(),
        n < MODULUS,
    ensures
        o@.decode(o@.encode(n)) == n,
{
    let scaled = ((n * o@.prime) % (MODULUS as int)) as u64;
    let mask = o@.random;
    assert((scaled ^ mask) ^ mask == scaled) by (bit_vector);
    lemma_multiply_then_invert(n as int, o@.prime as int, o@.mod_inverse as int, MODULUS as int);
}

/// Encoding undoes decoding as well, so the two transforms are bijections of
/// the identifiers below 2^31, each the inverse of the other.
pub proof fn lemma_encode_inverts_decode(o: Optimus, n: u64)
    requires
        o@.inverts(),
        o@.random < MODULUS,
        n < MODULUS,
    ensures
        o@.encode(o@.decode(n)) == n,
{
    let mask = o@.random;
    let unmasked = n ^ mask;
    assert(unmasked < 0x8000_0000 && unmasked ^ mask == n) by (bit_vector)
        requires
            unmasked == n ^ mask,
            n < 0x8000_0000,
            mask < 0x8000_0000,
    ;
    assert(o@.mod_inverse * o@.prime == o@.prime * o@.mod_inverse) by (nonlinear_arith);
    lemma_multiply_then_invert(
        unmasked as int,
        o@.mod_inverse as int,
        o@.prime as int,
        MODULUS as int,
    );
}

/// Construction from an explicit prime, inverse and mask is a function of the
/// three: any two outcomes are equal, and two obfuscators so constructed
/// encode and decode every input alike.
pub proof fn lemma_explicit_construction_is_deterministic(
    prime: u64,
    mod_inverse: u64,
    random: u64,
    a: Result<Optimus, ConstructionError>,
    b: Result<Optimus, ConstructionError>,
    n: u64,
)
    requires
        Optimus::constructs(prime, Some(mod_inverse), Some(random), a),
        Optimus::constructs(prime, Some(mod_inverse), Some(random), b),
    ensures
        a == b,
        a matches Ok(x) ==> b matches Ok(y) && x@.encode(n) == y@.encode(n) && x@.decode(n)
            == y@.decode(n),
{
}

} // verus!
