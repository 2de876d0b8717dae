//! A small xorshift generator for bench tests.
use vstd::prelude::*;

verus! {

/// The multiplier applied to the state to give an output.
pub const MULTIPLIER: u64 = 0x2545F4914F6CDD1D;

/// The state after one xorshift round.
pub open spec fn xorshift_spec(s: u64) -> u64 {
    let a = s ^ (s >> 12u64);
    let b = a ^ (a << 25u64);
    b ^ (b >> 27u64)
}

/// A xorshift64* generator.
#[derive(Clone, Copy, Debug)]
pub struct RNG {
    state: u64,
}

impl RNG {
    pub closed spec fn spec_state(&self) -> u64 {
        self.state
    }

    /// A generator started from `seed`.
    pub fn new(seed: u64) -> (r: RNG)
        ensures
            r.spec_state() == seed,
    {
        RNG { state: seed }
    }

    /// Advances the state by one xorshift round and returns it times
    /// [`MULTIPLIER`], modulo 2^64.
    pub fn randint(&mut self) -> (r: u64)
        ensures
            final(self).spec_state() == xorshift_spec(old(self).spec_state()),
            r == final(self).spec_state().wrapping_mul(MULTIPLIER),
    {
        self.state = self.state ^ (self.state >> 12u64);
        self.state = self.state ^ (self.state << 25u64);
        self.state = self.state ^ (self.state >> 27u64);
        self.state.wrapping_mul(MULTIPLIER)
    }
}

} // verus!
