//! Random bytes, for this crate alone.

use rand::Rng;
use vstd::prelude::*;

verus! {

/// Draws bytes from `rand::thread_rng`, with `rand::Rng::gen`. Nothing is said of them: any
/// thirty-two may come.
#[verifier::external_body]
pub fn random_bytes() -> [u8; 32] {
    rand::thread_rng().gen()
}

} // verus!
