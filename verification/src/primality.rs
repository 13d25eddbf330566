//! Miller-Rabin probabilistic primality testing.

use vstd::prelude::*;
use num_bigint::BigUint;
use vstd::arithmetic::power::{pow, lemma_pow0, lemma_pow1, lemma_pow_adds};
use vstd::arithmetic::div_mod::lemma_fundamental_div_mod;
use crate::bignum::{
    big_eq, big_from_u64, big_half, big_is_even, big_lt, big_mod, big_modpow, big_random_range,
    big_sub, big_val,
};

verus! {

/// Trial division by the odd numbers below 250: a cheap pre-filter that
/// rejects most composite candidates before the expensive witness rounds.
/// Returns true only when some proper odd divisor below 250 divides `n`.
pub(crate) fn has_small_odd_factor(n: &BigUint) -> (r: bool) {
    let zero = big_from_u64(0);
    let mut dd: u64 = 3;
    while dd < 250
        invariant
            3 <= dd <= 251,
            big_val(zero) == 0,
        decreases 251 - dd,
    {
        let d = big_from_u64(dd);
        if big_lt(&d, n) {
            let rem = big_mod(n, &d);
            if big_eq(&rem, &zero) {
                return true;
            }
        }
        dd = dd + 2;
    }
    false
}

/// One Miller-Rabin witness round for an odd `n >= 5` with
/// `n - 1 = d * 2^r`: picks a random witness `a` in `[2, n-2]`, computes
/// `a^d mod n`, and squares it up to `r - 1` times looking for `n - 1`.
/// Returns false when the witness proves `n` composite.
fn miller_rabin_round(n: &BigUint, d: &BigUint, r: u64) -> (passed: bool)
    requires
        big_val(*n) >= 5,
{
    let one = big_from_u64(1);
    let two = big_from_u64(2);
    let n_minus_1 = big_sub(n, &one);
    let a = big_random_range(&two, &n_minus_1);
    let mut x = big_modpow(&a, d, n);
    if big_eq(&x, &one) || big_eq(&x, &n_minus_1) {
        return true;
    }
    let mut j: u64 = 1;
    while j < r
        invariant
            big_val(*n) >= 5,
        decreases r - j,
    {
        x = big_modpow(&x, &two, n);
        if big_eq(&x, &n_minus_1) {
            return true;
        }
        j = j + 1;
    }
    false
}

/// Miller-Rabin primality test: numbers below 2 are not prime, 2 and 3 are,
/// even numbers above 2 are not; any other `n` passes `rounds` random
/// witness rounds, each of which a composite survives with probability at
/// most 1/4.  The randomness comes from the operating system.
pub fn is_probably_prime(n: &BigUint, rounds: usize) -> (r: bool)
    ensures
        big_val(*n) < 2 ==> !r,
        big_val(*n) == 2 || big_val(*n) == 3 ==> r,
        big_val(*n) > 3 && big_val(*n) % 2 == 0 ==> !r,
{
    let one = big_from_u64(1);
    let two = big_from_u64(2);
    let three = big_from_u64(3);
    if big_lt(n, &two) {
        return false;
    }
    if big_eq(n, &two) || big_eq(n, &three) {
        return true;
    }
    if big_is_even(n) {
        return false;
    }
    // Here n is odd and n >= 5.  Write n - 1 as d * 2^r with d odd.
    let mut d = big_sub(n, &one);
    let mut r_exp: u64 = 0;
    proof {
        lemma_pow0(2);
    }
    while big_is_even(&d) && r_exp < u64::MAX
        invariant
            big_val(*n) >= 5,
            big_val(d) >= 1,
            big_val(d) * pow(2, r_exp as nat) == big_val(*n) - 1,
        decreases big_val(d),
    {
        proof {
            lemma_fundamental_div_mod(big_val(d) as int, 2);
            lemma_pow1(2);
            lemma_pow_adds(2, 1, r_exp as nat);
            assert(pow(2, (r_exp + 1) as nat) == 2 * pow(2, r_exp as nat));
            assert((big_val(d) / 2) * pow(2, (r_exp + 1) as nat) == big_val(d) * pow(
                2,
                r_exp as nat,
            )) by (nonlinear_arith)
                requires
                    big_val(d) == 2 * (big_val(d) / 2),
                    pow(2, (r_exp + 1) as nat) == 2 * pow(2, r_exp as nat),
            ;
        }
        d = big_half(&d);
        r_exp = r_exp + 1;
    }
    let mut i: usize = 0;
    while i < rounds
        invariant
            big_val(*n) >= 5,
        decreases rounds - i,
    {
        if !miller_rabin_round(n, &d, r_exp) {
            return false;
        }
        i = i + 1;
    }
    true
}

} // verus!
