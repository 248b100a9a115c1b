use vstd::prelude::*;

verus! {

/// The seed that a fresh generator starts from.
pub const INITIAL_SEED: i32 = 74755;

/// The linear congruential step: the next seed, as a mathematical integer.
pub open spec fn next_seed(seed: int) -> int {
    (seed * 1309 + 13849) % 65536
}

/// A small deterministic pseudo-random generator of 16-bit values.
pub struct Random {
    pub seed: i32,
}

impl Default for Random {
    fn default() -> (r: Self)
        ensures
            r.seed == INITIAL_SEED,
    {
        Random { seed: INITIAL_SEED }
    }
}

impl Random {
    /// Advances the seed and returns it: `(seed * 1309 + 13849) mod 65536`.
    /// The multiplication must fit in an `i32`.
    pub fn next(&mut self) -> (r: i32)
        requires
            -1640404 <= old(self).seed <= 1640404,
        ensures
            r == next_seed(old(self).seed as int),
            final(self).seed == r,
            0 <= r < 65536,
    {
        let s: i32 = self.seed * 1309 + 13849;
        let r: i32 = s & 65535;
        assert(s & 65535 == s % 65536 && 0 <= s & 65535 < 65536) by (bit_vector);
        self.seed = r;
        r
    }
}

} // verus!
