//! Unsigned big-endian byte encodings of natural numbers.
//!
//! All integers cross the protocol boundary as unsigned big-endian byte
//! sequences with no sign bit and no fixed width.  These spec functions give
//! that encoding a mathematical meaning, so that the contracts of the
//! byte-conversion wrappers and of the challenge hash can speak about it.

use vstd::prelude::*;

verus! {

/// The minimal big-endian byte encoding of `n`: empty for zero, otherwise the
/// digits of `n` in base 256, most significant first, with no leading zero.
pub open spec fn be_bytes_of(n: nat) -> Seq<u8>
    decreases n,
{
    if n == 0 {
        Seq::empty()
    } else {
        be_bytes_of(n / 256).push((n % 256) as u8)
    }
}

/// The natural number that a big-endian byte sequence denotes; a zero-length
/// sequence denotes zero.
pub open spec fn nat_of_be_bytes(s: Seq<u8>) -> nat
    decreases s.len(),
{
    if s.len() == 0 {
        0
    } else {
        (nat_of_be_bytes(s.drop_last()) * 256 + s.last()) as nat
    }
}

/// Decoding inverts encoding: reading back the big-endian digits of `n`
/// yields `n` again.
pub proof fn lemma_be_bytes_round_trip(n: nat)
    ensures
        nat_of_be_bytes(be_bytes_of(n)) == n,
    decreases n,
{
    if n != 0 {
        lemma_be_bytes_round_trip(n / 256);
        assert(be_bytes_of(n).drop_last() =~= be_bytes_of(n / 256));
    }
}

} // verus!
