//! The session coordinator: one state machine per session, keyed strictly
//! by session id, so that concurrent sessions never interfere.
//!
//! Each session walks `Initialized -> CommitmentSubmitted -> {Verified |
//! Failed}` in lockstep; no transition skips a state.  A verified session is
//! purged; a failed one is retained in its `Failed` state and accepts no
//! further responses.

use vstd::prelude::*;
use std::collections::HashMap;
use num_bigint::BigUint;
use crate::bignum::{big_clone, big_val};
use crate::errors::ProtocolError;
use crate::groups::PublicParameters;
use crate::protocol::{
    challenge_of, generate_challenge, verify_proof, Commitment, ProofChallenge,
};
use crate::soundness::verifies;

verus! {

broadcast use vstd::std_specs::hash::group_hash_axioms;

/// Per-session protocol state.  Each variant carries exactly the fields
/// valid in that state; no secret material is ever stored.
pub enum Session {
    Initialized { params: PublicParameters },
    CommitmentSubmitted {
        params: PublicParameters,
        commitment: Commitment,
        challenge: ProofChallenge,
        challenge_hash: BigUint,
    },
    Failed {
        params: PublicParameters,
        commitment: Commitment,
        challenge: ProofChallenge,
        challenge_hash: BigUint,
    },
}

impl Session {
    /// The group parameters the session was created with.
    pub open spec fn group_of(&self) -> PublicParameters {
        match self {
            Session::Initialized { params } => *params,
            Session::CommitmentSubmitted { params, .. } => *params,
            Session::Failed { params, .. } => *params,
        }
    }

    /// Every session holds a well-formed group.
    pub open spec fn wf(&self) -> bool {
        self.group_of().wf()
    }
}

/// The coordinator: a table of independent sessions and a counter from
/// which fresh session ids are drawn.
pub struct ChaumPedersenServer {
    sessions: HashMap<u64, Session>,
    next_id: u64,
}

impl ChaumPedersenServer {
    /// The abstract state: the session table as a map.
    pub closed spec fn sessions_view(&self) -> Map<u64, Session> {
        self.sessions@
    }

    /// Every stored session is well-formed and every stored id is below the
    /// counter, so the next id is always fresh.
    pub closed spec fn wf(&self) -> bool {
        &&& forall|k: u64|
            self.sessions@.dom().contains(k) ==> #[trigger] self.sessions@[k].wf()
        &&& forall|k: u64| self.sessions@.dom().contains(k) ==> k < self.next_id
    }

    /// A coordinator with no sessions.
    pub fn new() -> (r: Self)
        ensures
            r.wf(),
            r.sessions_view() == Map::<u64, Session>::empty(),
    {
        ChaumPedersenServer { sessions: HashMap::new(), next_id: 0 }
    }

    /// Validates the requested bit size, generates a fresh group, and opens
    /// a new session in the `Initialized` state under a fresh id.  A bit
    /// size outside `[256, 4096]` is rejected as `InvalidArgument` before
    /// any work; an exhausted random search surfaces `GenerationFailed`.
    pub fn initialize_protocol(&mut self, bit_size: u32) -> (r: Result<
        (u64, PublicParameters),
        ProtocolError,
    >)
        requires
            old(self).wf(),
        ensures
            final(self).wf(),
            match r {
                Ok(res) => {
                    &&& 256 <= bit_size <= 4096
                    &&& res.1.wf()
                    &&& !old(self).sessions_view().contains_key(res.0)
                    &&& final(self).sessions_view().contains_key(res.0)
                    &&& (final(self).sessions_view()[res.0] matches Session::Initialized { params }
                        && big_val(params.p) == big_val(res.1.p)
                        && big_val(params.q) == big_val(res.1.q)
                        && big_val(params.g) == big_val(res.1.g))
                    &&& final(self).sessions_view() == old(self).sessions_view().insert(
                        res.0,
                        final(self).sessions_view()[res.0],
                    )
                },
                Err(ProtocolError::InvalidArgument) => (bit_size < 256 || bit_size > 4096)
                    && final(self).sessions_view() == old(self).sessions_view(),
                Err(ProtocolError::GenerationFailed) => 256 <= bit_size <= 4096
                    && final(self).sessions_view() == old(self).sessions_view(),
                Err(_) => false,
            },
    {
        if bit_size < 256 || bit_size > 4096 {
            return Err(ProtocolError::InvalidArgument);
        }
        if self.next_id == u64::MAX {
            return Err(ProtocolError::GenerationFailed);
        }
        let params = match PublicParameters::new(bit_size as u64) {
            Ok(p) => p,
            Err(_) => {
                return Err(ProtocolError::GenerationFailed);
            },
        };
        let session_id = self.next_id;
        self.next_id = self.next_id + 1;
        let stored = params.duplicate();
        self.sessions.insert(session_id, Session::Initialized { params: stored });
        Ok((session_id, params))
    }

    /// Looks the session up by its exact id; unless it exists and is still
    /// `Initialized`, answers `NotFound` without side effects.  Otherwise
    /// computes the challenge hash from the submitted challenge values,
    /// stores the submission, moves the session to `CommitmentSubmitted`,
    /// and returns the challenge.
    pub fn submit_commitment(
        &mut self,
        session_id: u64,
        commitment: Commitment,
        challenge: ProofChallenge,
    ) -> (r: Result<BigUint, ProtocolError>)
        requires
            old(self).wf(),
        ensures
            final(self).wf(),
            match r {
                Ok(s) => {
                    &&& old(self).sessions_view().contains_key(session_id)
                    &&& old(self).sessions_view()[session_id] is Initialized
                    &&& big_val(s) == challenge_of(
                        big_val(challenge.y1),
                        big_val(challenge.y2),
                        big_val(old(self).sessions_view()[session_id].group_of().q),
                    )
                    &&& final(self).sessions_view().contains_key(session_id)
                    &&& (final(self).sessions_view()[session_id] matches Session::CommitmentSubmitted {
                        params,
                        commitment: sc,
                        challenge: sch,
                        challenge_hash: sh,
                    } && big_val(params.p) == big_val(
                        old(self).sessions_view()[session_id].group_of().p,
                    )
                        && big_val(params.q) == big_val(
                        old(self).sessions_view()[session_id].group_of().q,
                    )
                        && big_val(params.g) == big_val(
                        old(self).sessions_view()[session_id].group_of().g,
                    )
                        && sc == commitment
                        && sch == challenge
                        && big_val(sh) == big_val(s))
                    &&& final(self).sessions_view() == old(self).sessions_view().insert(
                        session_id,
                        final(self).sessions_view()[session_id],
                    )
                },
                Err(ProtocolError::NotFound) => (!old(self).sessions_view().contains_key(
                    session_id,
                ) || !(old(self).sessions_view()[session_id] is Initialized))
                    && final(self).sessions_view() == old(self).sessions_view(),
                Err(_) => false,
            },
    {
        let ghost old_map = self.sessions@;
        match self.sessions.remove(&session_id) {
            Some(session) => {
                proof {
                    assert(old_map.contains_key(session_id) && session == old_map[session_id]);
                    assert(old_map[session_id].wf());
                    assert(session.group_of().wf());
                }
                match session {
                    Session::Initialized { params } => {
                        let s = generate_challenge(&challenge.y1, &challenge.y2, &params.q);
                        let stored_hash = big_clone(&s);
                        self.sessions.insert(
                            session_id,
                            Session::CommitmentSubmitted {
                                params,
                                commitment,
                                challenge,
                                challenge_hash: stored_hash,
                            },
                        );
                        proof {
                            assert(self.sessions@ =~= old_map.insert(
                                session_id,
                                self.sessions@[session_id],
                            ));
                        }
                        Ok(s)
                    },
                    other => {
                        self.sessions.insert(session_id, other);
                        proof {
                            assert(self.sessions@ =~= old_map);
                        }
                        Err(ProtocolError::NotFound)
                    },
                }
            },
            None => Err(ProtocolError::NotFound),
        }
    }

    /// Looks the session up by its exact id: `NotFound` if absent,
    /// `InvalidState` unless it is in `CommitmentSubmitted`.  Otherwise runs
    /// the verifier on the stored group, commitment, challenge values and
    /// challenge hash together with the submitted response.  On acceptance
    /// the session is purged; on rejection it is retained in the `Failed`
    /// state.
    pub fn submit_response(&mut self, session_id: u64, z: &BigUint) -> (r: Result<
        (bool, String),
        ProtocolError,
    >)
        requires
            old(self).wf(),
        ensures
            final(self).wf(),
            match r {
                Ok(res) => {
                    &&& old(self).sessions_view().contains_key(session_id)
                    &&& (old(self).sessions_view()[session_id] matches Session::CommitmentSubmitted {
                        params,
                        commitment,
                        challenge,
                        challenge_hash,
                    } && {
                        let accepted = verifies(
                            big_val(params.g),
                            big_val(commitment.b1),
                            big_val(challenge.y1),
                            big_val(challenge.y2),
                            big_val(commitment.a1),
                            big_val(commitment.c1),
                            big_val(challenge_hash),
                            big_val(*z),
                            big_val(params.p),
                        );
                        &&& res.0 == accepted
                        &&& (accepted ==> final(self).sessions_view() == old(
                            self,
                        ).sessions_view().remove(session_id) && res.1@
                            == "Proof verified successfully"@)
                        &&& (!accepted ==> final(self).sessions_view() == old(
                            self,
                        ).sessions_view().insert(
                            session_id,
                            Session::Failed { params, commitment, challenge, challenge_hash },
                        ) && res.1@ == "Proof verification failed"@)
                    })
                },
                Err(ProtocolError::NotFound) => !old(self).sessions_view().contains_key(session_id)
                    && final(self).sessions_view() == old(self).sessions_view(),
                Err(ProtocolError::InvalidState) => old(self).sessions_view().contains_key(
                    session_id,
                ) && !(old(self).sessions_view()[session_id] is CommitmentSubmitted)
                    && final(self).sessions_view() == old(self).sessions_view(),
                Err(_) => false,
            },
    {
        let ghost old_map = self.sessions@;
        match self.sessions.remove(&session_id) {
            Some(session) => {
                proof {
                    assert(old_map.contains_key(session_id) && session == old_map[session_id]);
                    assert(old_map[session_id].wf());
                    assert(session.group_of().wf());
                }
                match session {
                    Session::CommitmentSubmitted { params, commitment, challenge, challenge_hash } => {
                        let accepted = verify_proof(
                            &params.g,
                            &commitment.b1,
                            &challenge.y1,
                            &challenge.y2,
                            &commitment.a1,
                            &commitment.c1,
                            &challenge_hash,
                            z,
                            &params.p,
                        );
                        if accepted {
                            proof {
                                assert(self.sessions@ =~= old_map.remove(session_id));
                            }
                            Ok((true, "Proof verified successfully".to_owned()))
                        } else {
                            self.sessions.insert(
                                session_id,
                                Session::Failed { params, commitment, challenge, challenge_hash },
                            );
                            proof {
                                assert(self.sessions@ =~= old_map.insert(
                                    session_id,
                                    self.sessions@[session_id],
                                ));
                            }
                            Ok((false, "Proof verification failed".to_owned()))
                        }
                    },
                    other => {
                        self.sessions.insert(session_id, other);
                        proof {
                            assert(self.sessions@ =~= old_map);
                        }
                        Err(ProtocolError::InvalidState)
                    },
                }
            },
            None => Err(ProtocolError::NotFound),
        }
    }
}

} // verus!
