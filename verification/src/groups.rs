//! Construction of the safe-prime group (p, q, g).
//!
//! `p = 2q + 1` is a safe prime, `q` its Sophie Germain prime, and `g`
//! generates the order-`q` subgroup of the multiplicative group mod `p`.
//! Prime search is a bounded random search: exhausting the attempt budget
//! surfaces `GenerationFailed` rather than looping forever.

use vstd::prelude::*;
use num_bigint::BigUint;
use vstd::arithmetic::power::{pow, lemma_pow1, lemma_pow_adds, lemma0_pow};
use vstd::arithmetic::div_mod::{lemma_mod_division_less_than_divisor, lemma_small_mod};
use crate::bignum::{
    big_add, big_clone, big_eq, big_from_u64, big_is_even, big_modpow, big_mul, big_random_bits,
    big_random_range, big_sub, big_val,
};
use crate::errors::ProtocolError;
use crate::primality::{has_small_odd_factor, is_probably_prime};

verus! {

/// Attempt budget for each random search; exhausting it surfaces
/// `GenerationFailed`.
pub const MAX_GENERATION_ATTEMPTS: u64 = 10_000_000;

/// Witness rounds per primality test, for a false-positive probability of
/// at most 4^-40.
pub const PRIMALITY_ROUNDS: usize = 40;

/// The public group: a safe prime `p = 2q + 1`, its Sophie Germain prime
/// `q`, and a generator `g` of the order-`q` subgroup mod `p`.
pub struct PublicParameters {
    pub p: BigUint,
    pub q: BigUint,
    pub g: BigUint,
}

impl PublicParameters {
    /// Structural well-formedness: `p = 2q + 1` with `q` odd and at least 3,
    /// and `g` strictly between 1 and `p - 1` with `g^q = 1 (mod p)`.
    /// Primality of `p` and `q` is probabilistic and is attested by the
    /// tester at generation time, not recorded here.
    pub open spec fn wf(&self) -> bool {
        &&& big_val(self.p) == 2 * big_val(self.q) + 1
        &&& big_val(self.q) >= 3
        &&& big_val(self.q) % 2 == 1
        &&& 1 < big_val(self.g) < big_val(self.p) - 1
        &&& pow(big_val(self.g) as int, big_val(self.q)) % (big_val(self.p) as int) == 1
    }

    /// Generates a fresh group of at most `bits` bits.
    pub fn new(bits: u64) -> (r: Result<Self, ProtocolError>)
        requires
            2 <= bits <= 0xffff_ffff,
        ensures
            r matches Ok(params) ==> params.wf() && big_val(params.p) < pow(2, bits as nat),
    {
        match generate_params(bits as usize) {
            Ok((p, q, g)) => Ok(PublicParameters { p, q, g }),
            Err(e) => Err(e),
        }
    }

    /// A copy holding the same three values.
    pub fn duplicate(&self) -> (r: Self)
        ensures
            big_val(r.p) == big_val(self.p),
            big_val(r.q) == big_val(self.q),
            big_val(r.g) == big_val(self.g),
            self.wf() ==> r.wf(),
    {
        PublicParameters { p: big_clone(&self.p), q: big_clone(&self.q), g: big_clone(&self.g) }
    }
}

/// Searches for a Sophie Germain pair: a random odd candidate `q` of at most
/// `bits - 1` bits is tested for primality, and on success `p = 2q + 1` is
/// tested too; the first pair passing both tests is returned.
pub fn generate_safe_prime_pair(bits: usize) -> (r: Result<(BigUint, BigUint), ProtocolError>)
    requires
        bits >= 2,
    ensures
        r matches Ok(pair) ==> {
            &&& big_val(pair.0) == 2 * big_val(pair.1) + 1
            &&& big_val(pair.1) >= 3
            &&& big_val(pair.1) % 2 == 1
            &&& big_val(pair.1) < pow(2, (bits - 1) as nat)
            &&& big_val(pair.0) < pow(2, bits as nat)
        },
{
    let one = big_from_u64(1);
    let two = big_from_u64(2);
    let mut attempts: u64 = 0;
    while attempts < MAX_GENERATION_ATTEMPTS
        invariant
            bits >= 2,
            big_val(one) == 1,
            big_val(two) == 2,
        decreases MAX_GENERATION_ATTEMPTS - attempts,
    {
        let mut q = big_random_bits((bits - 1) as u64);
        proof {
            lemma_pow1(2);
            lemma_pow_adds(2, 1, (bits - 2) as nat);
            assert(pow(2, (bits - 1) as nat) == 2 * pow(2, (bits - 2) as nat));
            lemma_pow_adds(2, 1, (bits - 1) as nat);
            assert(pow(2, bits as nat) == 2 * pow(2, (bits - 1) as nat));
        }
        if big_is_even(&q) {
            q = big_add(&q, &one);
        }
        let p = big_add(&big_mul(&two, &q), &one);
        if !has_small_odd_factor(&q) && !has_small_odd_factor(&p) {
            if is_probably_prime(&q, PRIMALITY_ROUNDS) && is_probably_prime(
                &p,
                PRIMALITY_ROUNDS,
            ) {
                return Ok((p, q));
            }
        }
        attempts = attempts + 1;
    }
    Err(ProtocolError::GenerationFailed)
}

/// Searches for a single probable prime of at most `bits` bits.
pub fn generate_prime(bits: usize) -> (r: Result<BigUint, ProtocolError>)
    requires
        bits >= 1,
    ensures
        r matches Ok(c) ==> big_val(c) >= 2 && big_val(c) < pow(2, bits as nat),
{
    let one = big_from_u64(1);
    let mut attempts: u64 = 0;
    while attempts < MAX_GENERATION_ATTEMPTS
        invariant
            bits >= 1,
            big_val(one) == 1,
        decreases MAX_GENERATION_ATTEMPTS - attempts,
    {
        let mut candidate = big_random_bits(bits as u64);
        proof {
            lemma_pow1(2);
            lemma_pow_adds(2, 1, (bits - 1) as nat);
            assert(pow(2, bits as nat) == 2 * pow(2, (bits - 1) as nat));
        }
        if big_is_even(&candidate) {
            candidate = big_add(&candidate, &one);
        }
        if is_probably_prime(&candidate, PRIMALITY_ROUNDS) {
            return Ok(candidate);
        }
        attempts = attempts + 1;
    }
    Err(ProtocolError::GenerationFailed)
}

/// Searches for a generator of the order-`q` subgroup mod `p`: a random
/// `h` in `[2, p-2]` is squared mod `p`, and the square is accepted iff it
/// is neither 1 nor `p - 1` and satisfies `g^q = 1 (mod p)`.
pub fn find_generator(p: &BigUint, q: &BigUint) -> (r: Result<BigUint, ProtocolError>)
    requires
        big_val(*p) >= 5,
        big_val(*q) >= 1,
    ensures
        r matches Ok(g) ==> 1 < big_val(g) < big_val(*p) - 1 && pow(
            big_val(g) as int,
            big_val(*q),
        ) % (big_val(*p) as int) == 1,
{
    let one = big_from_u64(1);
    let two = big_from_u64(2);
    let p_minus_1 = big_sub(p, &one);
    let mut attempts: u64 = 0;
    while attempts < MAX_GENERATION_ATTEMPTS
        invariant
            big_val(*p) >= 5,
            big_val(*q) >= 1,
            big_val(one) == 1,
            big_val(two) == 2,
            big_val(p_minus_1) == big_val(*p) - 1,
        decreases MAX_GENERATION_ATTEMPTS - attempts,
    {
        let h = big_random_range(&two, &p_minus_1);
        let g = big_modpow(&h, &two, p);
        let gq = big_modpow(&g, q, p);
        if !big_eq(&g, &one) && !big_eq(&g, &p_minus_1) && big_eq(&gq, &one) {
            proof {
                lemma_mod_division_less_than_divisor(
                    pow(big_val(h) as int, 2),
                    big_val(*p) as int,
                );
                if big_val(g) == 0 {
                    lemma0_pow(big_val(*q));
                    lemma_small_mod(0, big_val(*p));
                    assert(big_val(gq) == 0);
                    assert(false);
                }
            }
            return Ok(g);
        }
        attempts = attempts + 1;
    }
    Err(ProtocolError::GenerationFailed)
}

/// Builds a full group: a safe-prime pair, then a generator of its order-`q`
/// subgroup.  Returns `(p, q, g)`.
pub fn generate_params(bits: usize) -> (r: Result<(BigUint, BigUint, BigUint), ProtocolError>)
    requires
        bits >= 2,
    ensures
        r matches Ok(t) ==> {
            &&& big_val(t.0) == 2 * big_val(t.1) + 1
            &&& big_val(t.1) >= 3
            &&& big_val(t.1) % 2 == 1
            &&& 1 < big_val(t.2) < big_val(t.0) - 1
            &&& pow(big_val(t.2) as int, big_val(t.1)) % (big_val(t.0) as int) == 1
            &&& big_val(t.0) < pow(2, bits as nat)
        },
{
    let (p, q) = match generate_safe_prime_pair(bits) {
        Ok(pair) => pair,
        Err(e) => {
            return Err(e);
        },
    };
    let g = match find_generator(&p, &q) {
        Ok(g) => g,
        Err(e) => {
            return Err(e);
        },
    };
    Ok((p, q, g))
}

/// A uniformly random element of `[1, q - 1]`, used for secrets and
/// ephemeral exponents.
pub fn generate_random_element(q: &BigUint) -> (r: BigUint)
    requires
        big_val(*q) >= 2,
    ensures
        1 <= big_val(r) < big_val(*q),
{
    let one = big_from_u64(1);
    big_random_range(&one, q)
}

/// A pair of independent random secrets in `[1, q - 1]`.
pub fn generate_secrets(q: &BigUint) -> (r: (BigUint, BigUint))
    requires
        big_val(*q) >= 2,
    ensures
        1 <= big_val(r.0) < big_val(*q),
        1 <= big_val(r.1) < big_val(*q),
{
    let a = generate_random_element(q);
    let b = generate_random_element(q);
    (a, b)
}

/// A fresh ephemeral exponent in `[1, q - 1]`, one per proof.
pub fn generate_prover_secret(q: &BigUint) -> (r: BigUint)
    requires
        big_val(*q) >= 2,
    ensures
        1 <= big_val(r) < big_val(*q),
{
    generate_random_element(q)
}

} // verus!
