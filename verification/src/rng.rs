//! The random numbers from which session and room ids are drawn.

use vstd::prelude::*;
use rand::rngs::ThreadRng;
use rand::Rng;

verus! {

/// `rand::rngs::ThreadRng`, the thread-local random generator.
#[verifier::external_type_specification]
#[verifier::external_body]
pub struct ExThreadRng(ThreadRng);

/// Calls `rand::thread_rng`, a handle on this thread's generator. It panics
/// only where the operating system refuses to seed it.
#[verifier::external_body]
pub(crate) fn new_thread_rng() -> ThreadRng {
    rand::thread_rng()
}

/// Calls `Rng::gen::<u32>`: any `u32` may come back. It panics only where
/// the generator's periodic reseeding from the operating system fails.
#[verifier::external_body]
pub(crate) fn random_u32(rng: &mut ThreadRng) -> u32 {
    rng.gen::<u32>()
}

/// Calls `Rng::gen::<u16>`: any `u16` may come back. It panics only where
/// the generator's periodic reseeding from the operating system fails.
#[verifier::external_body]
pub(crate) fn random_u16(rng: &mut ThreadRng) -> u16 {
    rng.gen::<u16>()
}

} // verus!
