use vstd::prelude::*;

verus! {

/// Relies on `rand::random::<u8>`: draws one byte from the thread-local generator.
/// Any byte may come back, so nothing is promised of it.
#[verifier::external_body]
pub(crate) fn random_byte() -> u8 {
    rand::random::<u8>()
}

} // verus!
