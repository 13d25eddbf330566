//! The verification relation of the proof protocol, and the laws that hold
//! of it: an honestly computed transcript always passes, and with a prime
//! subgroup order a response not congruent to the honest one always fails.

use vstd::prelude::*;
use vstd::arithmetic::power::{pow, lemma_pow_adds, lemma_pow_multiplies, lemma_pow_mod_noop};
use vstd::arithmetic::div_mod::{
    lemma_mul_mod_noop_left, lemma_mul_mod_noop_right, lemma_mod_division_less_than_divisor,
};
use crate::number_theory::{is_prime, lemma_pow_mod_exp_reduce, lemma_pow_injective_below_order};

verus! {

/// `b^e mod m` over the mathematical integers.
pub open spec fn pow_mod(b: nat, e: nat, m: nat) -> nat
    recommends
        m > 0,
{
    (pow(b as int, e) % (m as int)) as nat
}

/// The verifier's acceptance relation: both congruences
/// `g^z = a1^s * y1 (mod p)` and `b1^z = c1^s * y2 (mod p)` hold.
pub open spec fn verifies(
    g: nat,
    b1: nat,
    y1: nat,
    y2: nat,
    a1: nat,
    c1: nat,
    s: nat,
    z: nat,
    p: nat,
) -> bool
    recommends
        p > 0,
{
    &&& pow(g as int, z) % (p as int) == (pow(a1 as int, s) * (y1 as int)) % (p as int)
    &&& pow(b1 as int, z) % (p as int) == (pow(c1 as int, s) * (y2 as int)) % (p as int)
}

/// The right-hand side of the verifier's first congruence, computed from the
/// honest commitment `a1 = g^a` and challenge value `y1 = g^x`, equals
/// `g^((x + a*s) mod q) mod p`.
proof fn lemma_first_congruence_rhs(p: nat, q: nat, g: nat, a: nat, x: nat, s: nat)
    requires
        p >= 2,
        q >= 1,
        pow(g as int, q) % (p as int) == 1,
    ensures
        (pow(pow_mod(g, a, p) as int, s) * (pow_mod(g, x, p) as int)) % (p as int) == pow(
            g as int,
            (x + a * s) % q,
        ) % (p as int),
{
    let gi = g as int;
    let pi = p as int;
    let a1 = pow_mod(g, a, p) as int;
    let y1 = pow_mod(g, x, p) as int;
    lemma_mod_division_less_than_divisor(pow(gi, a), pi);
    lemma_mod_division_less_than_divisor(pow(gi, x), pi);
    // a1^s = (g^a)^s = g^(a*s)  (mod p)
    lemma_pow_mod_noop(pow(gi, a), s, pi);
    lemma_pow_multiplies(gi, a, s);
    assert(pow(a1, s) % pi == pow(gi, (a * s) as nat) % pi);
    // (a1^s * y1) % p == (g^(a*s) * g^x) % p
    lemma_mul_mod_noop_left(pow(a1, s), y1, pi);
    lemma_mul_mod_noop_left(pow(gi, (a * s) as nat), y1, pi);
    assert((pow(a1, s) * y1) % pi == (pow(gi, (a * s) as nat) * y1) % pi);
    lemma_mul_mod_noop_right(pow(gi, (a * s) as nat), pow(gi, x), pi);
    assert((pow(gi, (a * s) as nat) * y1) % pi == (pow(gi, (a * s) as nat) * pow(gi, x)) % pi);
    // g^(a*s) * g^x = g^(x + a*s)
    lemma_pow_adds(gi, (a * s) as nat, x);
    assert(pow(gi, (a * s + x) as nat) == pow(gi, (a * s) as nat) * pow(gi, x));
    assert((a * s + x) as nat == (x + a * s) as nat);
    // reduce the exponent mod q
    lemma_pow_mod_exp_reduce(g, (x + a * s) as nat, q, p);
}

/// Honest-proof round trip: for a group where `g^q = 1 (mod p)` and any
/// secrets `a`, `b`, `x` in range, the honestly computed commitment
/// `(a1, b1, c1) = (g^a, g^b, g^(a*b))`, challenge values
/// `(y1, y2) = (g^x, b1^x)` and response `z = (x + a*s) mod q` satisfy the
/// verifier's two congruences, whatever the challenge `s` is.
pub proof fn lemma_honest_proof_verifies(p: nat, q: nat, g: nat, a: nat, b: nat, x: nat, s: nat)
    requires
        p >= 2,
        q >= 1,
        pow(g as int, q) % (p as int) == 1,
        1 <= a < q,
        1 <= b < q,
        1 <= x < q,
    ensures
        verifies(
            g,
            pow_mod(g, b, p),
            pow_mod(g, x, p),
            pow_mod(pow_mod(g, b, p), x, p),
            pow_mod(g, a, p),
            pow_mod(g, a * b, p),
            s,
            (x + a * s) % q,
            p,
        ),
{
    let gi = g as int;
    let pi = p as int;
    let z = (x + a * s) % q;
    let b1 = pow_mod(g, b, p);
    let y2 = pow_mod(b1, x, p);
    let c1 = pow_mod(g, a * b, p);
    // First congruence: g^z = a1^s * y1 (mod p).
    lemma_first_congruence_rhs(p, q, g, a, x, s);
    lemma_pow_mod_exp_reduce(g, (x + a * s) as nat, q, p);
    assert(pow(gi, z) % pi == (pow(pow_mod(g, a, p) as int, s) * (pow_mod(g, x, p) as int)) % pi);
    // Second congruence: b1^z = c1^s * y2 (mod p).
    lemma_mod_division_less_than_divisor(pow(gi, b), pi);
    lemma_mod_division_less_than_divisor(pow(gi, (a * b) as nat), pi);
    lemma_mod_division_less_than_divisor(pow(b1 as int, x), pi);
    // b1^z = g^(b*z) (mod p)
    lemma_pow_mod_noop(pow(gi, b), z, pi);
    lemma_pow_multiplies(gi, b, z);
    assert(pow(b1 as int, z) % pi == pow(gi, (b * z) as nat) % pi);
    // b*z = b*(x + a*s) (mod q), so g^(b*z) = g^(b*(x + a*s)) (mod p)
    lemma_mul_mod_noop_right(b as int, (x + a * s) as int, q as int);
    assert((b * z) as int % (q as int) == (b * (x + a * s)) as int % (q as int));
    lemma_pow_mod_exp_reduce(g, (b * z) as nat, q, p);
    lemma_pow_mod_exp_reduce(g, (b * (x + a * s)) as nat, q, p);
    assert(pow(gi, (b * z) as nat) % pi == pow(gi, (b * (x + a * s)) as nat) % pi);
    // b*(x + a*s) = b*x + (a*b)*s
    assert((b * (x + a * s)) as nat == (b * x + (a * b) * s) as nat) by (nonlinear_arith);
    // g^(b*x + a*b*s) = g^(a*b*s) * g^(b*x)
    lemma_pow_adds(gi, ((a * b) * s) as nat, (b * x) as nat);
    assert(pow(gi, (b * x + (a * b) * s) as nat) == pow(gi, ((a * b) * s) as nat) * pow(
        gi,
        (b * x) as nat,
    ));
    // c1^s = g^(a*b*s) (mod p)
    lemma_pow_mod_noop(pow(gi, (a * b) as nat), s, pi);
    lemma_pow_multiplies(gi, (a * b) as nat, s);
    assert(pow(c1 as int, s) % pi == pow(gi, ((a * b) * s) as nat) % pi);
    // y2 = g^(b*x) (mod p)
    lemma_pow_mod_noop(pow(gi, b), x, pi);
    lemma_pow_multiplies(gi, b, x);
    assert(y2 as int == pow(gi, (b * x) as nat) % pi);
    // assemble the right-hand side
    lemma_mul_mod_noop_left(pow(c1 as int, s), y2 as int, pi);
    lemma_mul_mod_noop_left(pow(gi, ((a * b) * s) as nat), y2 as int, pi);
    lemma_mul_mod_noop_right(pow(gi, ((a * b) * s) as nat), pow(gi, (b * x) as nat), pi);
    assert((pow(c1 as int, s) * (y2 as int)) % pi == (pow(gi, ((a * b) * s) as nat) * pow(
        gi,
        (b * x) as nat,
    )) % pi);
}

/// Forged response: when the subgroup order `q` is prime, replacing the
/// honest response `z = (x + a*s) mod q` by any other residue below `q`
/// breaks the verifier's first congruence, so the proof is rejected.
pub proof fn lemma_forged_response_rejected(
    p: nat,
    q: nat,
    g: nat,
    a: nat,
    b: nat,
    x: nat,
    s: nat,
    z_forged: nat,
)
    requires
        p >= 2,
        is_prime(q),
        1 < g < p,
        pow(g as int, q) % (p as int) == 1,
        1 <= a < q,
        1 <= b < q,
        1 <= x < q,
        z_forged < q,
        z_forged != (x + a * s) % q,
    ensures
        !verifies(
            g,
            pow_mod(g, b, p),
            pow_mod(g, x, p),
            pow_mod(pow_mod(g, b, p), x, p),
            pow_mod(g, a, p),
            pow_mod(g, a * b, p),
            s,
            z_forged,
            p,
        ),
{
    let gi = g as int;
    let pi = p as int;
    let z = (x + a * s) % q;
    lemma_first_congruence_rhs(p, q, g, a, x, s);
    lemma_pow_mod_exp_reduce(g, (x + a * s) as nat, q, p);
    // The right-hand side of the first congruence equals g^z mod p, and
    // distinct residues below the prime order give distinct powers.
    lemma_mod_division_less_than_divisor((x + a * s) as int, q as int);
    if z_forged < z {
        lemma_pow_injective_below_order(g, q, p, z_forged, z);
    } else {
        lemma_pow_injective_below_order(g, q, p, z, z_forged);
    }
    assert(pow(gi, z_forged) % pi != pow(gi, z) % pi);
}

} // verus!
