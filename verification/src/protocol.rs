//! The proof protocol itself: commitment, Fiat-Shamir challenge, response,
//! and verification, over an explicit safe-prime group.
//!
//! Group arithmetic (commitments, challenge values, verification equations)
//! is mod the safe prime `p`; exponent arithmetic (challenge hash, response)
//! is mod the subgroup order `q`.

use vstd::prelude::*;
use num_bigint::BigUint;
use vstd::arithmetic::power::pow;
use vstd::arithmetic::div_mod::{lemma_mod_division_less_than_divisor, lemma_mul_mod_noop_left};
use crate::bignum::{
    be_repr, big_add, big_eq, big_from_bytes_be, big_mod, big_modpow, big_mul, big_to_bytes_be,
    big_val,
};
use crate::encoding::nat_of_be_bytes;
use crate::groups::{generate_prover_secret, generate_secrets, PublicParameters};
use crate::hashing::{sha256, sha256_of};
use crate::number_theory::is_prime;
use crate::soundness::{
    lemma_forged_response_rejected, lemma_honest_proof_verifies, pow_mod, verifies,
};

verus! {

/// The prover's commitment: `a1 = g^a`, `b1 = g^b`, `c1 = g^(a*b)`, all
/// mod `p`.  Public; binds the secrets without revealing them.
pub struct Commitment {
    pub a1: BigUint,
    pub b1: BigUint,
    pub c1: BigUint,
}

/// The challenge values `y1 = g^x` and `y2 = b1^x` mod `p`, computed from
/// the fresh ephemeral secret `x`.
pub struct ProofChallenge {
    pub y1: BigUint,
    pub y2: BigUint,
}

/// The response `z = (x + a*s) mod q`.
pub struct ProofResponse {
    pub z: BigUint,
}

/// A full, self-contained transcript: commitment, challenge values, the
/// response, and the Fiat-Shamir challenge hash.
pub struct ZKProof {
    pub commitment: Commitment,
    pub challenge: ProofChallenge,
    pub response: ProofResponse,
    pub challenge_hash: BigUint,
}

/// The Fiat-Shamir challenge: SHA-256 over the big-endian encodings of `y1`
/// then `y2`, with no separators, reduced mod `q`.
pub open spec fn challenge_of(y1: nat, y2: nat, q: nat) -> nat
    recommends
        q > 0,
{
    nat_of_be_bytes(sha256_of(be_repr(y1) + be_repr(y2))) % q
}

/// Computes the commitment `(a1, b1, c1) = (g^a, g^b, g^(a*b))` mod `p`.
pub fn generate_commitment(g: &BigUint, a: &BigUint, b: &BigUint, p: &BigUint) -> (r: (
    BigUint,
    BigUint,
    BigUint,
))
    requires
        big_val(*p) > 0,
    ensures
        big_val(r.0) == pow_mod(big_val(*g), big_val(*a), big_val(*p)),
        big_val(r.1) == pow_mod(big_val(*g), big_val(*b), big_val(*p)),
        big_val(r.2) == pow_mod(big_val(*g), big_val(*a) * big_val(*b), big_val(*p)),
{
    let a1 = big_modpow(g, a, p);
    let b1 = big_modpow(g, b, p);
    let ab = big_mul(a, b);
    let c1 = big_modpow(g, &ab, p);
    (a1, b1, c1)
}

/// Computes the Fiat-Shamir challenge hash of the submitted challenge
/// values: a pure function of `(y1, y2, q)`, reproducible bit-for-bit by an
/// independent verifier.
pub fn generate_challenge(y1: &BigUint, y2: &BigUint, q: &BigUint) -> (s: BigUint)
    requires
        big_val(*q) > 0,
    ensures
        big_val(s) == challenge_of(big_val(*y1), big_val(*y2), big_val(*q)),
        big_val(s) < big_val(*q),
{
    let mut data = big_to_bytes_be(y1);
    let mut tail = big_to_bytes_be(y2);
    data.append(&mut tail);
    let digest = sha256(&data);
    let h = big_from_bytes_be(&digest);
    let s = big_mod(&h, q);
    proof {
        lemma_mod_division_less_than_divisor(big_val(h) as int, big_val(*q) as int);
    }
    s
}

/// Computes the challenge values `(y1, y2) = (g^x, b1^x)` mod `p`.
pub fn compute_y1y2(x: &BigUint, g: &BigUint, b1: &BigUint, p: &BigUint) -> (r: (BigUint, BigUint))
    requires
        big_val(*p) > 0,
    ensures
        big_val(r.0) == pow_mod(big_val(*g), big_val(*x), big_val(*p)),
        big_val(r.1) == pow_mod(big_val(*b1), big_val(*x), big_val(*p)),
{
    let y1 = big_modpow(g, x, p);
    let y2 = big_modpow(b1, x, p);
    (y1, y2)
}

/// Computes the response `z = (x + a*s) mod q`.
pub fn compute_z(x: &BigUint, a: &BigUint, s: &BigUint, q: &BigUint) -> (z: BigUint)
    requires
        big_val(*q) > 0,
    ensures
        big_val(z) == (big_val(*x) + big_val(*a) * big_val(*s)) % big_val(*q),
{
    let prod = big_mul(a, s);
    let sum = big_add(x, &prod);
    big_mod(&sum, q)
}

/// The verifier's check: accepts iff both `g^z = a1^s * y1 (mod p)` and
/// `b1^z = c1^s * y2 (mod p)` hold.
pub fn verify_proof(
    g: &BigUint,
    b1: &BigUint,
    y1: &BigUint,
    y2: &BigUint,
    a1: &BigUint,
    c1: &BigUint,
    s: &BigUint,
    z: &BigUint,
    p: &BigUint,
) -> (r: bool)
    requires
        big_val(*p) > 0,
    ensures
        r == verifies(
            big_val(*g),
            big_val(*b1),
            big_val(*y1),
            big_val(*y2),
            big_val(*a1),
            big_val(*c1),
            big_val(*s),
            big_val(*z),
            big_val(*p),
        ),
{
    let left1 = big_modpow(g, z, p);
    let right1 = big_mod(&big_mul(&big_modpow(a1, s, p), y1), p);
    let left2 = big_modpow(b1, z, p);
    let right2 = big_mod(&big_mul(&big_modpow(c1, s, p), y2), p);
    proof {
        lemma_mul_mod_noop_left(
            pow(big_val(*a1) as int, big_val(*s)),
            big_val(*y1) as int,
            big_val(*p) as int,
        );
        lemma_mul_mod_noop_left(
            pow(big_val(*c1) as int, big_val(*s)),
            big_val(*y2) as int,
            big_val(*p) as int,
        );
    }
    let ok1 = big_eq(&left1, &right1);
    let ok2 = big_eq(&left2, &right2);
    ok1 && ok2
}

/// An honest transcript for secrets `a`, `b` and ephemeral secret `x` under
/// the group `(p, q, g)`: every field carries exactly the value the protocol
/// prescribes, with the challenge hash recomputed from the challenge values.
pub open spec fn is_honest_proof(
    p: nat,
    q: nat,
    g: nat,
    a: nat,
    b: nat,
    x: nat,
    zk: ZKProof,
) -> bool
    recommends
        p > 0,
        q > 0,
{
    let s = challenge_of(pow_mod(g, x, p), pow_mod(pow_mod(g, b, p), x, p), q);
    &&& big_val(zk.commitment.a1) == pow_mod(g, a, p)
    &&& big_val(zk.commitment.b1) == pow_mod(g, b, p)
    &&& big_val(zk.commitment.c1) == pow_mod(g, a * b, p)
    &&& big_val(zk.challenge.y1) == pow_mod(g, x, p)
    &&& big_val(zk.challenge.y2) == pow_mod(pow_mod(g, b, p), x, p)
    &&& big_val(zk.challenge_hash) == s
    &&& big_val(zk.response.z) == (x + a * s) % q
}

/// An honest transcript is always accepted: its challenge hash matches the
/// recomputed one, and the two verification congruences hold.
pub proof fn lemma_honest_transcript_accepted(
    p: nat,
    q: nat,
    g: nat,
    a: nat,
    b: nat,
    x: nat,
    zk: ZKProof,
)
    requires
        p >= 2,
        q >= 1,
        pow(g as int, q) % (p as int) == 1,
        1 <= a < q,
        1 <= b < q,
        1 <= x < q,
        is_honest_proof(p, q, g, a, b, x, zk),
    ensures
        big_val(zk.challenge_hash) == challenge_of(
            big_val(zk.challenge.y1),
            big_val(zk.challenge.y2),
            q,
        ),
        verifies(
            g,
            big_val(zk.commitment.b1),
            big_val(zk.challenge.y1),
            big_val(zk.challenge.y2),
            big_val(zk.commitment.a1),
            big_val(zk.commitment.c1),
            big_val(zk.challenge_hash),
            big_val(zk.response.z),
            p,
        ),
{
    let s = challenge_of(pow_mod(g, x, p), pow_mod(pow_mod(g, b, p), x, p), q);
    lemma_honest_proof_verifies(p, q, g, a, b, x, s);
}

/// Forging the response of an honest transcript is futile when the subgroup
/// order `q` is prime: any response other than the honest one, reduced mod
/// `q`, breaks the verifier's first congruence and is rejected.
pub proof fn lemma_forged_transcript_rejected(
    p: nat,
    q: nat,
    g: nat,
    a: nat,
    b: nat,
    x: nat,
    zk: ZKProof,
    z_forged: nat,
)
    requires
        p >= 2,
        is_prime(q),
        1 < g < p,
        pow(g as int, q) % (p as int) == 1,
        1 <= a < q,
        1 <= b < q,
        1 <= x < q,
        is_honest_proof(p, q, g, a, b, x, zk),
        z_forged < q,
        z_forged != big_val(zk.response.z),
    ensures
        !verifies(
            g,
            big_val(zk.commitment.b1),
            big_val(zk.challenge.y1),
            big_val(zk.challenge.y2),
            big_val(zk.commitment.a1),
            big_val(zk.commitment.c1),
            big_val(zk.challenge_hash),
            z_forged,
            p,
        ),
{
    let s = challenge_of(pow_mod(g, x, p), pow_mod(pow_mod(g, b, p), x, p), q);
    lemma_forged_response_rejected(p, q, g, a, b, x, s, z_forged);
}

/// The prover: the public group and the two secrets `a`, `b` it commits to.
/// Secrets never leave this structure.
pub struct Prover {
    pub params: PublicParameters,
    pub secret_a: BigUint,
    pub secret_b: BigUint,
}

impl Prover {
    /// The group is well-formed and both secrets lie in `[1, q - 1]`.
    pub open spec fn wf(&self) -> bool {
        &&& self.params.wf()
        &&& 1 <= big_val(self.secret_a) < big_val(self.params.q)
        &&& 1 <= big_val(self.secret_b) < big_val(self.params.q)
    }

    /// Draws fresh secrets in `[1, q - 1]` for the given group.
    pub fn new(params: PublicParameters) -> (r: Self)
        requires
            params.wf(),
        ensures
            r.wf(),
            big_val(r.params.p) == big_val(params.p),
            big_val(r.params.q) == big_val(params.q),
            big_val(r.params.g) == big_val(params.g),
    {
        let (secret_a, secret_b) = generate_secrets(&params.q);
        Prover { params, secret_a, secret_b }
    }

    /// Commits to the secrets: `(a1, b1, c1) = (g^a, g^b, g^(a*b))` mod `p`.
    pub fn generate_commitment(&self) -> (c: Commitment)
        requires
            self.wf(),
        ensures
            big_val(c.a1) == pow_mod(big_val(self.params.g), big_val(self.secret_a), big_val(self.params.p)),
            big_val(c.b1) == pow_mod(big_val(self.params.g), big_val(self.secret_b), big_val(self.params.p)),
            big_val(c.c1) == pow_mod(
                big_val(self.params.g),
                big_val(self.secret_a) * big_val(self.secret_b),
                big_val(self.params.p),
            ),
    {
        let (a1, b1, c1) = generate_commitment(
            &self.params.g,
            &self.secret_a,
            &self.secret_b,
            &self.params.p,
        );
        Commitment { a1, b1, c1 }
    }

    /// Draws a fresh ephemeral secret `x` and computes the challenge values
    /// `(y1, y2) = (g^x, b1^x)` mod `p`; returns `x` for the later response.
    pub fn generate_proof_challenge(&self, commitment: &Commitment) -> (r: (ProofChallenge, BigUint))
        requires
            self.wf(),
        ensures
            1 <= big_val(r.1) < big_val(self.params.q),
            big_val(r.0.y1) == pow_mod(big_val(self.params.g), big_val(r.1), big_val(self.params.p)),
            big_val(r.0.y2) == pow_mod(big_val(commitment.b1), big_val(r.1), big_val(self.params.p)),
    {
        let x = generate_prover_secret(&self.params.q);
        let (y1, y2) = compute_y1y2(&x, &self.params.g, &commitment.b1, &self.params.p);
        (ProofChallenge { y1, y2 }, x)
    }

    /// Computes the response `z = (x + a*s) mod q` for a challenge hash `s`.
    pub fn generate_response(&self, x: &BigUint, challenge_hash: &BigUint) -> (r: ProofResponse)
        requires
            self.wf(),
        ensures
            big_val(r.z) == (big_val(*x) + big_val(self.secret_a) * big_val(*challenge_hash))
                % big_val(self.params.q),
    {
        let z = compute_z(x, &self.secret_a, challenge_hash, &self.params.q);
        ProofResponse { z }
    }

    /// Runs the whole prover side non-interactively: commitment, fresh
    /// ephemeral secret, Fiat-Shamir challenge hash, response.  The result
    /// is an honest transcript for some ephemeral secret in range.
    pub fn create_proof(&self) -> (zk: ZKProof)
        requires
            self.wf(),
        ensures
            exists|x: nat|
                1 <= x < big_val(self.params.q) && is_honest_proof(
                    big_val(self.params.p),
                    big_val(self.params.q),
                    big_val(self.params.g),
                    big_val(self.secret_a),
                    big_val(self.secret_b),
                    x,
                    zk,
                ),
    {
        let commitment = self.generate_commitment();
        let (challenge, x) = self.generate_proof_challenge(&commitment);
        let challenge_hash = generate_challenge(&challenge.y1, &challenge.y2, &self.params.q);
        let response = self.generate_response(&x, &challenge_hash);
        let zk = ZKProof { commitment, challenge, response, challenge_hash };
        proof {
            assert(1 <= big_val(x) < big_val(self.params.q) && is_honest_proof(
                big_val(self.params.p),
                big_val(self.params.q),
                big_val(self.params.g),
                big_val(self.secret_a),
                big_val(self.secret_b),
                big_val(x),
                zk,
            ));
        }
        zk
    }
}

/// The verifier: holds the public group and checks full transcripts.
pub struct Verifier {
    pub params: PublicParameters,
}

impl Verifier {
    pub fn new(params: PublicParameters) -> (r: Self)
        ensures
            r.params == params,
    {
        Verifier { params }
    }

    /// Checks a transcript: recomputes the Fiat-Shamir challenge from the
    /// submitted challenge values, rejects if the embedded hash disagrees,
    /// then checks the two verification congruences.
    pub fn verify_proof(&self, zk: &ZKProof) -> (r: bool)
        requires
            self.params.wf(),
        ensures
            r == (big_val(zk.challenge_hash) == challenge_of(
                big_val(zk.challenge.y1),
                big_val(zk.challenge.y2),
                big_val(self.params.q),
            ) && verifies(
                big_val(self.params.g),
                big_val(zk.commitment.b1),
                big_val(zk.challenge.y1),
                big_val(zk.challenge.y2),
                big_val(zk.commitment.a1),
                big_val(zk.commitment.c1),
                big_val(zk.challenge_hash),
                big_val(zk.response.z),
                big_val(self.params.p),
            )),
    {
        let expected_challenge = generate_challenge(
            &zk.challenge.y1,
            &zk.challenge.y2,
            &self.params.q,
        );
        if !big_eq(&expected_challenge, &zk.challenge_hash) {
            return false;
        }
        verify_proof(
            &self.params.g,
            &zk.commitment.b1,
            &zk.challenge.y1,
            &zk.challenge.y2,
            &zk.commitment.a1,
            &zk.commitment.c1,
            &zk.challenge_hash,
            &zk.response.z,
            &self.params.p,
        )
    }
}

} // verus!
