use vstd::prelude::*;

verus! {

/// The constant added to the state before each draw.
pub const SEED_STEP: i32 = 0x6D2B_79F5;

/// The value drawn from a state that has already been advanced.
pub open spec fn mix(s: i32) -> i32 {
    let t = (s ^ (s >> 15u32)).wrapping_mul(s | 1);
    let t2 = t.wrapping_add((t ^ (t >> 7u32)).wrapping_mul(t | 31));
    let u = t ^ t2;
    u ^ (u >> 14u32)
}

/// A small deterministic pseudo-random generator over a 32-bit state.
#[derive(Copy, Clone, Debug)]
pub struct Random {
    pub seed: i32,
}

impl Random {
    /// A generator that starts from `seed`.
    pub fn new(seed: i32) -> (r: Random)
        ensures
            r.seed == seed,
    {
        Random { seed }
    }

    /// Advances the state by the fixed step (wrapping) and returns the mixed new state.
    pub fn next_int(&mut self) -> (r: i32)
        ensures
            final(self).seed == old(self).seed.wrapping_add(SEED_STEP),
            r == mix(final(self).seed),
    {
        self.seed = self.seed.wrapping_add(SEED_STEP);
        let s = self.seed;
        let t = (s ^ (s >> 15u32)).wrapping_mul(s | 1);
        let t2 = t.wrapping_add((t ^ (t >> 7u32)).wrapping_mul(t | 31));
        let u = t ^ t2;
        u ^ (u >> 14u32)
    }
}

} // verus!
