//! Where the game gets its random numbers.

use vstd::prelude::*;

verus! {

/// A source of bytes that nothing is known about. The game draws from one
/// to place the food; a caller that wants a reproducible game hands in a
/// source of its own.
pub trait RandomSource {
    /// The next byte.
    fn next_u8(&mut self) -> u8;
}

/// The random number generator of the running thread.
#[derive(Clone, Copy, Debug)]
pub struct ThreadSource;

impl ThreadSource {
    pub fn new() -> ThreadSource {
        ThreadSource
    }
}

impl RandomSource for ThreadSource {
    fn next_u8(&mut self) -> u8 {
        thread_u8()
    }
}

/// Draws one byte with `rand::Rng::gen::<u8>` from `rand::thread_rng()`.
/// Nothing is claimed of the byte: every value may come.
#[verifier::external_body]
fn thread_u8() -> u8 {
    rand::Rng::gen::<u8>(&mut rand::thread_rng())
}

} // verus!
