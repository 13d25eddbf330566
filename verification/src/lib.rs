//! Chaum-Pedersen zero-knowledge proofs over a safe-prime group.
//!
//! A prover demonstrates knowledge of a discrete-logarithm pair without
//! revealing it.  The crate builds the group (safe-prime generation,
//! Miller-Rabin primality testing, generator discovery), implements the
//! prover- and verifier-side protocol steps with exact modular-arithmetic
//! contracts, and coordinates interactive sessions through a per-session
//! state machine.

pub mod bignum;
pub mod encoding;
pub mod errors;
pub mod groups;
pub mod hashing;
pub mod number_theory;
pub mod primality;
pub mod protocol;
pub mod session;
pub mod soundness;

pub use errors::ProtocolError;
pub use groups::{
    find_generator, generate_params, generate_prime, generate_prover_secret,
    generate_random_element, generate_safe_prime_pair, generate_secrets, PublicParameters,
};
pub use primality::is_probably_prime;
pub use protocol::{
    compute_y1y2, compute_z, generate_challenge, generate_commitment, verify_proof, Commitment,
    ProofChallenge, ProofResponse, Prover, Verifier, ZKProof,
};
pub use session::{ChaumPedersenServer, Session};
