//! The random sources of the server: salts, session tokens and the
//! choice and shuffling of quiz questions all draw from `fastrand`.
//! Nothing is promised of the values drawn beyond their range.

use vstd::prelude::*;

verus! {

/// `fastrand::Rng`, carried through opaquely.
#[verifier::external_type_specification]
#[verifier::external_body]
pub struct ExRng(fastrand::Rng);

/// `fastrand::Rng::new`: a generator seeded from the thread-local one.
/// Nothing is claimed of its state.
#[verifier::external_body]
pub(crate) fn new_rng() -> (rng: fastrand::Rng) {
    fastrand::Rng::new()
}

/// `fastrand::Rng::fill`: overwrites every byte of the buffer with random
/// bytes. Claimed: the length stays as it was; the contents are unknown.
#[verifier::external_body]
pub(crate) fn rng_fill(rng: &mut fastrand::Rng, buf: &mut Vec<u8>)
    ensures
        final(buf)@.len() == old(buf)@.len(),
{
    rng.fill(buf.as_mut_slice())
}

/// `fastrand::Rng::usize` on the range `0..bound`, which panics on an empty
/// range (hence `bound > 0`). Claimed: the result lies in the range.
#[verifier::external_body]
pub(crate) fn rng_below(rng: &mut fastrand::Rng, bound: usize) -> (r: usize)
    requires
        bound > 0,
    ensures
        r < bound,
{
    rng.usize(0..bound)
}

/// The free function `fastrand::usize` on the range `..bound`, drawn from
/// the thread-local generator; it panics on an empty range (hence
/// `bound > 0`). Claimed: the result lies in the range.
#[verifier::external_body]
pub(crate) fn random_below(bound: usize) -> (r: usize)
    requires
        bound > 0,
    ensures
        r < bound,
{
    fastrand::usize(..bound)
}

} // verus!
