use chaum_pedersen::{compute_z, ChaumPedersenServer, ProtocolError, Prover};
use num_bigint::BigUint;

#[test]
fn initialize_rejects_out_of_range_bit_sizes() {
    let mut server = ChaumPedersenServer::new();
    assert!(matches!(
        server.initialize_protocol(128),
        Err(ProtocolError::InvalidArgument)
    ));
    assert!(matches!(
        server.initialize_protocol(255),
        Err(ProtocolError::InvalidArgument)
    ));
    assert!(matches!(
        server.initialize_protocol(4097),
        Err(ProtocolError::InvalidArgument)
    ));
}

#[test]
fn end_to_end_honest_proof_verifies() {
    let mut server = ChaumPedersenServer::new();
    let (session_id, params) = server
        .initialize_protocol(256)
        .expect("initialization should succeed");

    let prover = Prover::new(params);
    let commitment = prover.generate_commitment();
    let (challenge, x) = prover.generate_proof_challenge(&commitment);

    let s = server
        .submit_commitment(session_id, commitment, challenge)
        .expect("commitment should be accepted");

    let z = compute_z(&x, &prover.secret_a, &s, &prover.params.q);
    let (verified, message) = server
        .submit_response(session_id, &z)
        .expect("response should be processed");
    assert!(verified);
    assert_eq!(message, "Proof verified successfully");

    // The session is purged on success.
    assert_eq!(
        server.submit_response(session_id, &z),
        Err(ProtocolError::NotFound)
    );
}

#[test]
fn end_to_end_forged_response_fails_and_session_is_retained() {
    let mut server = ChaumPedersenServer::new();
    let (session_id, params) = server
        .initialize_protocol(256)
        .expect("initialization should succeed");

    let prover = Prover::new(params);
    let commitment = prover.generate_commitment();
    let (challenge, x) = prover.generate_proof_challenge(&commitment);

    let s = server
        .submit_commitment(session_id, commitment, challenge)
        .expect("commitment should be accepted");

    let z = compute_z(&x, &prover.secret_a, &s, &prover.params.q);
    let z_forged = (&z + BigUint::from(1u32)) % &prover.params.q;
    let (verified, message) = server
        .submit_response(session_id, &z_forged)
        .expect("response should be processed");
    assert!(!verified);
    assert_eq!(message, "Proof verification failed");

    // The session is retained in its failed state: a further response is
    // out of sequence, not unknown.
    assert_eq!(
        server.submit_response(session_id, &z),
        Err(ProtocolError::InvalidState)
    );
}

#[test]
fn unknown_session_is_not_found() {
    let mut server = ChaumPedersenServer::new();
    let z = BigUint::from(5u32);
    assert_eq!(
        server.submit_response(424242, &z),
        Err(ProtocolError::NotFound)
    );
}

#[test]
fn response_before_commitment_is_invalid_state() {
    let mut server = ChaumPedersenServer::new();
    let (session_id, _params) = server
        .initialize_protocol(256)
        .expect("initialization should succeed");
    let z = BigUint::from(5u32);
    assert_eq!(
        server.submit_response(session_id, &z),
        Err(ProtocolError::InvalidState)
    );
    // A second commitment to the same session is also rejected once the
    // first has been accepted.
    assert_eq!(
        server.submit_response(session_id + 1, &z),
        Err(ProtocolError::NotFound)
    );
}

#[test]
fn sessions_are_independent() {
    let mut server = ChaumPedersenServer::new();
    let (sid1, params1) = server
        .initialize_protocol(256)
        .expect("initialization should succeed");
    let (sid2, _params2) = server
        .initialize_protocol(256)
        .expect("initialization should succeed");
    assert_ne!(sid1, sid2);

    let prover = Prover::new(params1);
    let commitment = prover.generate_commitment();
    let (challenge, x) = prover.generate_proof_challenge(&commitment);
    let s = server
        .submit_commitment(sid1, commitment, challenge)
        .expect("commitment should be accepted");

    // The second session is untouched by the first one's progress.
    let z = compute_z(&x, &prover.secret_a, &s, &prover.params.q);
    assert_eq!(
        server.submit_response(sid2, &z),
        Err(ProtocolError::InvalidState)
    );

    // Completing the first session leaves the second in place.
    let (verified, _message) = server
        .submit_response(sid1, &z)
        .expect("response should be processed");
    assert!(verified);
    assert_eq!(
        server.submit_response(sid2, &z),
        Err(ProtocolError::InvalidState)
    );
}

#[test]
fn commitment_to_unknown_session_is_not_found() {
    let mut server = ChaumPedersenServer::new();
    let prover = Prover::new(chaum_pedersen::PublicParameters {
        p: BigUint::from(23u32),
        q: BigUint::from(11u32),
        g: BigUint::from(4u32),
    });
    let commitment = prover.generate_commitment();
    let (challenge, _x) = prover.generate_proof_challenge(&commitment);
    assert_eq!(
        server.submit_commitment(7, commitment, challenge),
        Err(ProtocolError::NotFound)
    );
}
