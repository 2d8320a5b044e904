//! The source of fresh keys and nonces.

use vstd::prelude::*;

verus! {

/// Fills an array from `rand::thread_rng()` with `RngCore::fill_bytes`.
///
/// Nothing is promised of the bytes: every call may give any array.
#[verifier::external_body]
pub(crate) fn random_bytes<const N: usize>() -> (bytes: [u8; N]) {
    let mut bytes = [0u8; N];
    rand::RngCore::fill_bytes(&mut rand::thread_rng(), &mut bytes);
    bytes
}

} // verus!
