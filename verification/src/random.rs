//! The library's own source of random bytes.

use vstd::prelude::*;

verus! {

/// Calls `rand::random::<u8>()`, which draws a byte from the thread-local
/// generator. The byte depends on chance, so nothing is claimed of it. The
/// call takes no input; it panics only if the operating system fails to
/// seed the generator.
#[verifier::external_body]
pub(crate) fn random_byte() -> u8 {
    rand::random::<u8>()
}

} // verus!
