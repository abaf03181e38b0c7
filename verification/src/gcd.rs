//! Greatest common divisor: the specification-level function, the facts about
//! it that fraction reduction rests on, and an executable Euclidean algorithm.

use vstd::prelude::*;
use vstd::arithmetic::div_mod::lemma_add_mod_noop;
use vstd::arithmetic::div_mod::lemma_div_multiples_vanish_quotient;
use vstd::arithmetic::div_mod::lemma_fundamental_div_mod;
use vstd::arithmetic::div_mod::lemma_mod_multiples_basic;
use vstd::arithmetic::div_mod::lemma_mod_self_0;
use vstd::arithmetic::div_mod::lemma_small_mod;
use vstd::arithmetic::div_mod::lemma_truncate_middle;
use vstd::arithmetic::mul::lemma_mul_is_associative;
use vstd::arithmetic::mul::lemma_mul_strictly_positive;

verus! {

/// The greatest common divisor of `a` and `b`, by Euclid's recurrence.
/// `gcd(a, 0) == a`, so `gcd(0, 0) == 0`; in every other case the result is
/// positive.
pub open spec fn gcd(a: nat, b: nat) -> nat
    decreases b,
{
    if b == 0 {
        a
    } else {
        gcd(b, a % b)
    }
}

/// The gcd of two numbers, at least one of them positive, is positive.
pub proof fn lemma_gcd_pos(a: nat, b: nat)
    requires
        a > 0 || b > 0,
    ensures
        gcd(a, b) > 0,
    decreases b,
{
    if b != 0 {
        lemma_gcd_pos(b, a % b);
    }
}

/// The gcd of `a` and `b` divides both of them.
pub proof fn lemma_gcd_divides(a: nat, b: nat)
    requires
        a > 0 || b > 0,
    ensures
        gcd(a, b) > 0,
        a % gcd(a, b) == 0,
        b % gcd(a, b) == 0,
    decreases b,
{
    let g = gcd(a, b);
    if b == 0 {
        lemma_mod_self_0(a as int);
        lemma_small_mod(0, a);
    } else {
        lemma_gcd_divides(b, a % b);
        assert(g == gcd(b, a % b));
        // b and a % b are multiples of g; a == (a / b) * b + a % b is one too.
        lemma_fundamental_div_mod(a as int, b as int);
        lemma_fundamental_div_mod(b as int, g as int);
        assert(b == g * (b / g));
        assert((a / b) * (b as int) == ((a / b) * ((b / g) as int)) * (g as int)) by {
            lemma_mul_is_associative(a as int / b as int, b as int / g as int, g as int);
        }
        lemma_mod_multiples_basic((a / b) * ((b / g) as int), g as int);
        assert(((a / b) * (b as int)) % (g as int) == 0);
        lemma_add_mod_noop((a / b) * (b as int), (a % b) as int, g as int);
        lemma_small_mod(0, g);
        assert(a % g == 0);
    }
}

/// Scaling both arguments by a positive factor scales the gcd by that factor:
/// `gcd(k * a, k * b) == k * gcd(a, b)`.
pub proof fn lemma_gcd_scale(k: nat, a: nat, b: nat)
    requires
        k > 0,
    ensures
        gcd(k * a, k * b) == k * gcd(a, b),
    decreases b,
{
    if b == 0 {
        assert(k * b == 0);
    } else {
        lemma_mul_strictly_positive(k as int, b as int);
        assert(k * b > 0);
        lemma_truncate_middle(a as int, k as int, b as int);
        assert((k * a) % (k * b) == k * (a % b));
        lemma_gcd_scale(k, b, a % b);
        assert(gcd(k * a, k * b) == gcd(k * b, (k * a) % (k * b)));
    }
}

/// After dividing `n` and `d` by their gcd, the two quotients are coprime,
/// and each original number is recovered by multiplying its quotient back.
pub proof fn lemma_gcd_reduce(n: nat, d: nat)
    requires
        d > 0,
    ensures
        gcd(n, d) > 0,
        gcd(n / gcd(n, d), d / gcd(n, d)) == 1,
        n == gcd(n, d) * (n / gcd(n, d)),
        d == gcd(n, d) * (d / gcd(n, d)),
        d / gcd(n, d) > 0,
    decreases d,
{
    let g = gcd(n, d);
    lemma_gcd_divides(n, d);
    lemma_fundamental_div_mod(n as int, g as int);
    lemma_fundamental_div_mod(d as int, g as int);
    assert(n == g * (n / g));
    assert(d == g * (d / g));
    assert(d / g > 0) by {
        if d / g == 0 {
            assert(d == g * 0);
        }
    }
    lemma_gcd_scale(g, n / g, d / g);
    assert(g * gcd(n / g, d / g) == g);
    assert(gcd(n / g, d / g) == 1) by {
        let c = gcd(n / g, d / g);
        if c == 0 {
            assert(g * c == 0);
        } else if c >= 2 {
            assert(g * c >= g * 2) by {
                vstd::arithmetic::mul::lemma_mul_inequality(2, c as int, g as int);
                vstd::arithmetic::mul::lemma_mul_is_commutative(g as int, c as int);
            }
        }
    }
}

/// Scaling numerator and denominator by a positive factor leaves the reduced
/// fraction unchanged.
pub proof fn lemma_reduce_scale(k: nat, n: nat, d: nat)
    requires
        k > 0,
        d > 0,
    ensures
        (k * n) / gcd(k * n, k * d) == n / gcd(n, d),
        (k * d) / gcd(k * n, k * d) == d / gcd(n, d),
{
    let g = gcd(n, d);
    lemma_gcd_pos(n, d);
    lemma_gcd_scale(k, n, d);
    assert(gcd(k * n, k * d) == k * g);
    lemma_div_multiples_vanish_quotient(k as int, n as int, g as int);
    assert((n as int) / (g as int) == (k * n) as int / (k * g) as int);
    lemma_div_multiples_vanish_quotient(k as int, d as int, g as int);
    assert((d as int) / (g as int) == (k * d) as int / (k * g) as int);
}

/// Fractions that denote the same value (their cross-products are equal)
/// have the same reduced form.
pub proof fn lemma_reduce_same_value(n1: nat, d1: nat, n2: nat, d2: nat)
    requires
        d1 > 0,
        d2 > 0,
        n1 * d2 == n2 * d1,
    ensures
        n1 / gcd(n1, d1) == n2 / gcd(n2, d2),
        d1 / gcd(n1, d1) == d2 / gcd(n2, d2),
{
    lemma_reduce_scale(d2, n1, d1);
    lemma_reduce_scale(d1, n2, d2);
    assert(d2 * n1 == d1 * n2) by {
        vstd::arithmetic::mul::lemma_mul_is_commutative(d2 as int, n1 as int);
        vstd::arithmetic::mul::lemma_mul_is_commutative(d1 as int, n2 as int);
    }
    assert(d2 * d1 == d1 * d2) by {
        vstd::arithmetic::mul::lemma_mul_is_commutative(d2 as int, d1 as int);
    }
}

/// Computes the greatest common divisor by Euclid's algorithm.
pub fn gcd_u32(a: u32, b: u32) -> (g: u32)
    ensures
        g as nat == gcd(a as nat, b as nat),
{
    let mut x: u32 = a;
    let mut y: u32 = b;
    while y != 0
        invariant
            gcd(x as nat, y as nat) == gcd(a as nat, b as nat),
        decreases y,
    {
        let r: u32 = x % y;
        x = y;
        y = r;
    }
    x
}

} // verus!
