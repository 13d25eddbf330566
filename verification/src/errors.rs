//! Error kinds surfaced to callers of the protocol.

use vstd::prelude::*;

verus! {

/// Terminal, synchronous failures: a malformed or out-of-range request
/// field, an unknown session, an operation attempted out of sequence, or a
/// bounded random search that exhausted its attempts.
#[derive(Clone, Copy, Debug, PartialEq, Eq, Structural)]
pub enum ProtocolError {
    InvalidArgument,
    NotFound,
    InvalidState,
    GenerationFailed,
}

} // verus!
