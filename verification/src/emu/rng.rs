//! The machine's one source of randomness, behind a trusted boundary.

use vstd::prelude::*;

verus! {

/// Relies on rand::random: draws one byte from the thread-local generator.
/// The value depends on the generator's state, so nothing is assumed of it;
/// callers state what holds of every possible byte.
#[verifier::external_body]
pub(crate) fn random_byte() -> u8 {
    rand::random()
}

} // verus!
