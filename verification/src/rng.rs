//! The source of random bytes.

use vstd::prelude::*;

verus! {

/// Draws one byte from the thread-local generator of the `rand` crate, by
/// `rand::random::<u8>()`.
///
/// Nothing is claimed of the byte: every value may come back, and two calls
/// may differ.
#[verifier::external_body]
pub(crate) fn random_byte() -> (b: u8) {
    rand::random::<u8>()
}

} // verus!
