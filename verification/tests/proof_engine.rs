use chaum_pedersen::{
    compute_y1y2, compute_z, generate_challenge, generate_commitment, verify_proof,
    PublicParameters, Prover, Verifier, ZKProof,
};
use num_bigint::BigUint;
use sha2::{Digest, Sha256};

fn b(n: u64) -> BigUint {
    BigUint::from(n)
}

fn small_group() -> PublicParameters {
    // p = 23 = 2*11 + 1; g = 4 = 2^2 has order 11 mod 23.
    PublicParameters { p: b(23), q: b(11), g: b(4) }
}

#[test]
fn commitment_exact_values() {
    // 4^3 = 64 = 18 (mod 23); 4^5 = 1024 = 12 (mod 23); 4^15 = 3 (mod 23).
    let (a1, b1, c1) = generate_commitment(&b(4), &b(3), &b(5), &b(23));
    assert_eq!(a1, b(18));
    assert_eq!(b1, b(12));
    assert_eq!(c1, b(3));
}

#[test]
fn challenge_values_exact() {
    // y1 = 4^2 = 16 (mod 23); y2 = 12^2 = 144 = 6 (mod 23).
    let (y1, y2) = compute_y1y2(&b(2), &b(4), &b(12), &b(23));
    assert_eq!(y1, b(16));
    assert_eq!(y2, b(6));
}

#[test]
fn response_exact_value() {
    // z = (7 + 3*5) mod 11 = 0; z = (3 + 2*3) mod 11 = 9.
    assert_eq!(compute_z(&b(7), &b(3), &b(5), &b(11)), b(0));
    assert_eq!(compute_z(&b(3), &b(2), &b(3), &b(11)), b(9));
}

#[test]
fn challenge_matches_independent_sha256() {
    let y1 = b(123456789);
    let y2 = b(987654321);
    let q = b(1_000_003);
    let s = generate_challenge(&y1, &y2, &q);
    let mut hasher = Sha256::new();
    hasher.update(y1.to_bytes_be());
    hasher.update(y2.to_bytes_be());
    let expected = BigUint::from_bytes_be(&hasher.finalize()) % &q;
    assert_eq!(s, expected);
}

#[test]
fn challenge_is_deterministic() {
    let s1 = generate_challenge(&b(16), &b(6), &b(11));
    let s2 = generate_challenge(&b(16), &b(6), &b(11));
    assert_eq!(s1, s2);
}

#[test]
fn challenge_is_sensitive_to_inputs() {
    let q = b(0xffff_ffff_ffff_fc5f);
    let base = generate_challenge(&b(1000), &b(2000), &q);
    assert_ne!(base, generate_challenge(&b(1001), &b(2000), &q));
    assert_ne!(base, generate_challenge(&b(1000), &b(2001), &q));
    assert_ne!(base, generate_challenge(&b(2000), &b(1000), &q));
}

#[test]
fn honest_round_trip_accepted() {
    let (p, q, g) = (b(23), b(11), b(4));
    let (a, bb) = (b(3), b(5));
    let (a1, b1, c1) = generate_commitment(&g, &a, &bb, &p);
    let x = b(7);
    let (y1, y2) = compute_y1y2(&x, &g, &b1, &p);
    let s = generate_challenge(&y1, &y2, &q);
    let z = compute_z(&x, &a, &s, &q);
    assert!(verify_proof(&g, &b1, &y1, &y2, &a1, &c1, &s, &z, &p));
}

#[test]
fn forged_response_rejected() {
    let (p, q, g) = (b(23), b(11), b(4));
    let (a, bb) = (b(3), b(5));
    let (a1, b1, c1) = generate_commitment(&g, &a, &bb, &p);
    let x = b(7);
    let (y1, y2) = compute_y1y2(&x, &g, &b1, &p);
    let s = generate_challenge(&y1, &y2, &q);
    let z = compute_z(&x, &a, &s, &q);
    let z_forged = (&z + b(1)) % &q;
    assert!(!verify_proof(&g, &b1, &y1, &y2, &a1, &c1, &s, &z_forged, &p));
}

#[test]
fn prover_verifier_round_trip() {
    let prover = Prover::new(small_group());
    let proof = prover.create_proof();
    let verifier = Verifier::new(small_group());
    assert!(verifier.verify_proof(&proof));
}

#[test]
fn prover_verifier_round_trip_generated_group() {
    let params = PublicParameters::new(256).expect("generation should succeed");
    let dup = PublicParameters {
        p: params.p.clone(),
        q: params.q.clone(),
        g: params.g.clone(),
    };
    let prover = Prover::new(params);
    let proof = prover.create_proof();
    let verifier = Verifier::new(dup);
    assert!(verifier.verify_proof(&proof));
}

#[test]
fn tampered_proof_rejected() {
    let prover = Prover::new(small_group());
    let proof = prover.create_proof();
    let verifier = Verifier::new(small_group());

    let tampered_z = ZKProof {
        commitment: chaum_pedersen::Commitment {
            a1: proof.commitment.a1.clone(),
            b1: proof.commitment.b1.clone(),
            c1: proof.commitment.c1.clone(),
        },
        challenge: chaum_pedersen::ProofChallenge {
            y1: proof.challenge.y1.clone(),
            y2: proof.challenge.y2.clone(),
        },
        response: chaum_pedersen::ProofResponse {
            z: (&proof.response.z + b(1)) % b(11),
        },
        challenge_hash: proof.challenge_hash.clone(),
    };
    assert!(!verifier.verify_proof(&tampered_z));

    let tampered_hash = ZKProof {
        commitment: chaum_pedersen::Commitment {
            a1: proof.commitment.a1.clone(),
            b1: proof.commitment.b1.clone(),
            c1: proof.commitment.c1.clone(),
        },
        challenge: chaum_pedersen::ProofChallenge {
            y1: proof.challenge.y1.clone(),
            y2: proof.challenge.y2.clone(),
        },
        response: chaum_pedersen::ProofResponse {
            z: proof.response.z.clone(),
        },
        challenge_hash: (&proof.challenge_hash + b(1)) % b(11),
    };
    assert!(!verifier.verify_proof(&tampered_hash));
}
