//! The stochastic return sampler's source of randomness, behind trusted
//! wrappers around the `rand` crate.

use vstd::prelude::*;
use rand::rngs::ThreadRng;
use rand::Rng;

verus! {

#[verifier::external_type_specification]
#[verifier::external_body]
pub struct ExThreadRng(ThreadRng);

/// Relies on rand::thread_rng: a handle to the thread-local generator, so
/// that concurrent trials need no shared generator.
#[verifier::external_body]
pub(crate) fn new_rng() -> ThreadRng {
    rand::thread_rng()
}

/// Relies on rand::Rng::gen_range over `0..len`: a uniform draw from a
/// non-empty half-open range lies in that range. Nothing more is assumed of
/// a random result.
#[verifier::external_body]
pub(crate) fn sample_index(rng: &mut ThreadRng, len: usize) -> (i: usize)
    requires
        len > 0,
    ensures
        i < len,
{
    rng.gen_range(0..len)
}

} // verus!
