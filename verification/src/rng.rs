use vstd::prelude::*;

verus! {

/// One byte from `rand::random::<u8>()`, which draws from the `rand`
/// crate's thread-local generator.
///
/// Nothing is promised of the byte: two calls may give different bytes, and
/// every value of `u8` can come back. The generator seeds itself from the
/// operating system and ends the process if that source fails.
#[verifier::external_body]
pub(crate) fn random_byte() -> (byte: u8) {
    rand::random::<u8>()
}

} // verus!
