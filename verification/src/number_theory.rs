//! Number-theoretic groundwork for the proof protocol.
//!
//! The soundness arguments rest on two facts about the order-`q` subgroup of
//! the multiplicative group mod `p`: exponents of a subgroup element can be
//! reduced mod `q`, and when `q` is prime a generator other than 1 sends
//! distinct exponents below `q` to distinct residues.

use vstd::prelude::*;
use vstd::arithmetic::power::{
    pow, lemma_pow_adds, lemma_pow_multiplies, lemma_pow_mod_noop, lemma1_pow, lemma_pow1,
};
use vstd::arithmetic::div_mod::{
    lemma_fundamental_div_mod, lemma_mul_mod_noop_left, lemma_mul_mod_noop_right,
    lemma_mod_self_0, lemma_small_mod, lemma_mod_multiples_basic,
};
use vstd::assert_by_contradiction;

verus! {

/// Mathematical primality: at least 2, with no divisor strictly between 1
/// and itself.
pub open spec fn is_prime(n: nat) -> bool {
    n >= 2 && forall|k: nat| 2 <= k < n ==> #[trigger] (n % k) != 0
}

/// `d` divides `n` evenly.
pub open spec fn divides(d: nat, n: nat) -> bool
    recommends
        d > 0,
{
    n % d == 0
}

/// Greatest common divisor by Euclid's algorithm.
pub open spec fn gcd(a: nat, b: nat) -> nat
    decreases b,
{
    if b == 0 {
        a
    } else {
        gcd(b, a % b)
    }
}

/// An exponent of a subgroup element may be reduced mod the subgroup order:
/// if `g^q = 1 (mod p)` then `g^e = g^(e mod q) (mod p)`.
pub proof fn lemma_pow_mod_exp_reduce(g: nat, e: nat, q: nat, p: nat)
    requires
        p >= 2,
        q >= 1,
        pow(g as int, q) % (p as int) == 1,
    ensures
        pow(g as int, e) % (p as int) == pow(g as int, e % q) % (p as int),
{
    let gi = g as int;
    let pi = p as int;
    let k = e / q;
    let r = e % q;
    assert(e == k * q + r) by {
        lemma_fundamental_div_mod(e as int, q as int);
    };
    lemma_pow_adds(gi, (k * q) as nat, r);
    assert(pow(gi, e) == pow(gi, (k * q) as nat) * pow(gi, r));
    lemma_pow_multiplies(gi, q, k);
    assert(q * k == k * q) by (nonlinear_arith);
    assert(pow(pow(gi, q), k) == pow(gi, (k * q) as nat));
    lemma_pow_mod_noop(pow(gi, q), k, pi);
    lemma1_pow(k);
    lemma_small_mod(1, p);
    assert(pow(pow(gi, q), k) % pi == 1);
    lemma_mul_mod_noop_left(pow(pow(gi, q), k), pow(gi, r), pi);
    assert(pow(gi, e) % pi == (1 * pow(gi, r)) % pi);
}

/// The gcd of two numbers, not both zero, is positive and divides both.
pub proof fn lemma_gcd_divides(a: nat, b: nat)
    requires
        a > 0 || b > 0,
    ensures
        gcd(a, b) > 0,
        divides(gcd(a, b), a),
        divides(gcd(a, b), b),
    decreases b,
{
    if b == 0 {
        lemma_mod_self_0(a as int);
        lemma_small_mod(0, a);
    } else {
        let r = a % b;
        lemma_gcd_divides(b, r);
        let g = gcd(b, r);
        assert(gcd(a, b) == g);
        lemma_fundamental_div_mod(a as int, b as int);
        lemma_fundamental_div_mod(b as int, g as int);
        lemma_fundamental_div_mod(r as int, g as int);
        let q1 = a as int / b as int;
        let qb = b as int / g as int;
        let qr = r as int / g as int;
        assert(a as int == (q1 * qb + qr) * g) by (nonlinear_arith)
            requires
                a as int == b as int * q1 + r,
                b as int == g as int * qb + (b as int % g as int),
                r as int == g as int * qr + (r as int % g as int),
                b as int % g as int == 0,
                r as int % g as int == 0,
        ;
        lemma_mod_multiples_basic(q1 * qb + qr, g as int);
        assert(a % g == 0);
    }
}

/// If `g^a = 1` and `g^b = 1 (mod p)`, then `g^gcd(a, b) = 1 (mod p)`.
pub proof fn lemma_pow_one_gcd(g: nat, p: nat, a: nat, b: nat)
    requires
        p >= 2,
        pow(g as int, a) % (p as int) == 1,
        pow(g as int, b) % (p as int) == 1,
    ensures
        pow(g as int, gcd(a, b)) % (p as int) == 1,
    decreases b,
{
    if b != 0 {
        lemma_pow_mod_exp_reduce(g, a, b, p);
        lemma_pow_one_gcd(g, p, b, a % b);
    }
}

/// A positive divisor of a number below a prime `q` that also divides `q`
/// must be 1, so the gcd of such a number with `q` is 1.
pub proof fn lemma_gcd_with_prime(d: nat, q: nat)
    requires
        is_prime(q),
        1 <= d < q,
    ensures
        gcd(d, q) == 1,
{
    lemma_gcd_divides(d, q);
    let g = gcd(d, q);
    if g > d {
        lemma_small_mod(d, g);
        assert(false);
    }
    assert(g <= d < q);
    if g >= 2 {
        assert(q % g != 0);
        assert(false);
    }
}

/// Distinct exponents below a prime order `q` give distinct powers of a
/// generator `g != 1` satisfying `g^q = 1 (mod p)`.
pub proof fn lemma_pow_injective_below_order(g: nat, q: nat, p: nat, z1: nat, z2: nat)
    requires
        p >= 2,
        is_prime(q),
        1 < g < p,
        pow(g as int, q) % (p as int) == 1,
        z1 < z2 < q,
    ensures
        pow(g as int, z1) % (p as int) != pow(g as int, z2) % (p as int),
{
    let gi = g as int;
    let pi = p as int;
    let d = (z2 - z1) as nat;
    assert_by_contradiction!(pow(gi, z1) % pi != pow(gi, z2) % pi, {
        // Multiply both sides of g^z1 = g^z2 by g^(q - z1): the left side
        // collapses to g^q = 1, the right to g^(z2 - z1) * g^q = g^(z2 - z1).
        let c = pow(gi, (q - z1) as nat);
        lemma_pow_adds(gi, z1, (q - z1) as nat);
        assert(pow(gi, z1) * c == pow(gi, q));
        lemma_pow_adds(gi, z2, (q - z1) as nat);
        assert(pow(gi, z2) * c == pow(gi, (z2 + q - z1) as nat));
        lemma_pow_adds(gi, d, q);
        assert(pow(gi, (z2 + q - z1) as nat) == pow(gi, d) * pow(gi, q));
        lemma_mul_mod_noop_left(pow(gi, z1), c, pi);
        lemma_mul_mod_noop_left(pow(gi, z2), c, pi);
        assert((pow(gi, z1) * c) % pi == (pow(gi, z2) * c) % pi);
        assert(pow(gi, q) % pi == (pow(gi, d) * pow(gi, q)) % pi);
        lemma_mul_mod_noop_right(pow(gi, d), pow(gi, q), pi);
        assert((pow(gi, d) * 1) % pi == 1);
        assert(pow(gi, d) % pi == 1);
        // Together with g^q = 1 this forces g^gcd(d, q) = 1, and the gcd is 1.
        lemma_pow_one_gcd(g, p, d, q);
        lemma_gcd_with_prime(d, q);
        lemma_pow1(gi);
        lemma_small_mod(g, p);
        assert(g == 1);
    });
}

} // verus!
