//! Integer facts behind the obfuscation: divisibility, Bézout's identity and
//! inverses modulo a number.

use vstd::arithmetic::div_mod::{
    lemma_fundamental_div_mod, lemma_mod_multiples_vanish, lemma_mul_mod_noop_left,
    lemma_mul_mod_noop_right, lemma_small_mod,
};
use vstd::arithmetic::power2::{lemma2_to64, lemma_pow2_unfold, pow2};
use vstd::prelude::*;

verus! {

/// `d` is a divisor of `n`.
pub open spec fn divides(d: int, n: int) -> bool {
    d != 0 && n % d == 0
}

/// `g` is the greatest common divisor of `a` and `b`, with zero for the pair of zeros.
pub open spec fn is_gcd(a: int, b: int, g: int) -> bool {
    if a == 0 && b == 0 {
        g == 0
    } else {
        &&& g > 0
        &&& divides(g, a)
        &&& divides(g, b)
        &&& forall|d: int| #[trigger] divides(d, a) && divides(d, b) ==> d <= g
    }
}

/// Bézout's identity: `x` and `y` combine `a` and `b` into `g`.
pub open spec fn bezout_identity(a: int, x: int, b: int, y: int, g: int) -> bool {
    a * x + b * y == g
}

/// `v` is the representative in `[0, m)` of the inverse of `a` modulo `m`.
pub open spec fn is_inverse(a: int, v: int, m: int) -> bool {
    0 <= v < m && (a * v) % m == 1
}

/// A coefficient that combines `a` with a multiple of `m` into 1 is an inverse
/// of `a` modulo `m`, and stays one when `m` is added to it.
pub proof fn lemma_bezout_coefficient_inverts(a: int, x: int, y: int, m: int)
    requires
        m > 1,
        bezout_identity(a, x, m, y, 1),
    ensures
        (a * x) % m == 1,
        (a * (x + m)) % m == 1,
{
    assert(a * x == m * (-y) + 1) by (nonlinear_arith)
        requires
            a * x + m * y == 1,
    ;
    lemma_mod_multiples_vanish(-y, 1, m);
    lemma_small_mod(1, m as nat);
    assert(a * (x + m) == m * (a - y) + 1) by (nonlinear_arith)
        requires
            a * x + m * y == 1,
    ;
    lemma_mod_multiples_vanish(a - y, 1, m);
}

/// An even number has no inverse modulo an even number.
pub proof fn lemma_even_has_no_inverse(a: int, v: int, m: int)
    requires
        a % 2 == 0,
        m % 2 == 0,
        m > 0,
    ensures
        !is_inverse(a, v, m),
{
    if (a * v) % m == 1 {
        let q = (a * v) / m;
        let h = a / 2;
        let k = m / 2;
        lemma_fundamental_div_mod(a * v, m);
        assert(a * v - m * q == 2 * (h * v - k * q)) by (nonlinear_arith)
            requires
                a == 2 * h,
                m == 2 * k,
        ;
    }
}

/// Multiplying by `a` and then by an inverse of `a` modulo `m` gives back
/// every `n` in `[0, m)`.
pub proof fn lemma_multiply_then_invert(n: int, a: int, inv: int, m: int)
    requires
        m > 0,
        0 <= n < m,
        (a * inv) % m == 1,
    ensures
        (((n * a) % m) * inv) % m == n,
{
    lemma_mul_mod_noop_left(n * a, inv, m);
    assert((n * a) * inv == n * (a * inv)) by (nonlinear_arith);
    lemma_mul_mod_noop_right(n, a * inv, m);
    assert(n * 1 == n);
    lemma_small_mod(n as nat, m as nat);
}

/// A number has at most one inverse in `[0, m)`.
pub proof fn lemma_inverse_is_unique(a: int, v: int, w: int, m: int)
    requires
        is_inverse(a, v, m),
        is_inverse(a, w, m),
    ensures
        v == w,
{
    lemma_multiply_then_invert(v, a, w, m);
    assert(v * a == a * v) by (nonlinear_arith);
    assert(1 * w == w);
    lemma_small_mod(w as nat, m as nat);
}

/// An odd divisor of a power of two is 1.
pub proof fn lemma_odd_divisor_of_power_of_two(g: int, k: nat)
    requires
        g > 0,
        g % 2 == 1,
        divides(g, pow2(k) as int),
    ensures
        g == 1,
    decreases k,
{
    let n = pow2(k) as int;
    let q = n / g;
    lemma_fundamental_div_mod(n, g);
    assert(n == g * q);
    if k == 0 {
        lemma2_to64();
        assert(g == 1) by (nonlinear_arith)
            requires
                g > 0,
                g * q == 1,
        ;
    } else {
        lemma_pow2_unfold(k);
        let half = pow2((k - 1) as nat) as int;
        assert(n == 2 * half);
        if q % 2 != 0 {
            let a = g / 2;
            let b = q / 2;
            assert(g * q == 2 * (2 * a * b + a + b) + 1) by (nonlinear_arith)
                requires
                    g == 2 * a + 1,
                    q == 2 * b + 1,
            ;
        }
        let r = q / 2;
        assert(half == g * r) by (nonlinear_arith)
            requires
                g * q == 2 * half,
                q == 2 * r,
        ;
        lemma_mod_multiples_vanish(r, 0, g);
        assert(g * r + 0 == half);
        lemma_small_mod(0, g as nat);
        lemma_odd_divisor_of_power_of_two(g, (k - 1) as nat);
    }
}

/// Every divisor of an odd number is odd.
pub proof fn lemma_divisor_of_odd_is_odd(d: int, p: int)
    requires
        p % 2 == 1,
        divides(d, p),
    ensures
        d % 2 == 1,
{
    let q = p / d;
    lemma_fundamental_div_mod(p, d);
    assert(p == d * q);
    if d % 2 == 0 {
        let h = d / 2;
        assert(d * q == 2 * (h * q)) by (nonlinear_arith)
            requires
                d == 2 * h,
        ;
    }
}

/// An odd number and 2^31 have 1 as their greatest common divisor.
pub proof fn lemma_odd_is_coprime_to_modulus(p: int)
    requires
        p % 2 == 1,
    ensures
        is_gcd(p, 0x8000_0000, 1),
{
    assert forall|d: int| #[trigger] divides(d, p) && divides(d, 0x8000_0000) implies d <= 1 by {
        if d > 0 {
            lemma_divisor_of_odd_is_odd(d, p);
            lemma2_to64();
            lemma_odd_divisor_of_power_of_two(d, 31);
        }
    }
}

/// The greatest common divisor of a number and 2^31 is 1 exactly when the
/// number is odd.
pub proof fn lemma_coprime_to_modulus_iff_odd(p: int, g: int)
    requires
        is_gcd(p, 0x8000_0000, g),
    ensures
        g == 1 <==> p % 2 == 1,
{
    if p % 2 == 1 {
        lemma_odd_is_coprime_to_modulus(p);
        assert(divides(1, p) && divides(1, 0x8000_0000));
    } else {
        assert(divides(2, p) && divides(2, 0x8000_0000));
    }
}

} // verus!
