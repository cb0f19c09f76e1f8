use vstd::prelude::*;
use vstd::arithmetic::div_mod::lemma_add_mod_noop;

verus! {

/// Multiplier of the linear congruential generator.
pub const LCG_MUL: u64 = 6364136223846793005;

/// Increment of the linear congruential generator.
pub const LCG_INC: u64 = 1442695040888963407;

/// Seed that a fresh `WorldRng` starts from.
pub const WORLD_SEED: u64 = 0x9E37_79B9_7F4A_7C15;

/// One step of the generator: `s * LCG_MUL + LCG_INC` modulo 2^64.
pub open spec fn lcg_step(s: u64) -> u64 {
    ((s as nat * LCG_MUL as nat + LCG_INC as nat) % 0x1_0000_0000_0000_0000) as u64
}

/// The 31 bits that a draw from state `s` hands out: the top bits of the
/// next state.
pub open spec fn lcg_bits(s: u64) -> u32 {
    (lcg_step(s) >> 33u64) as u32
}

/// 64-bit linear congruential generator used by the world.
pub struct WorldRng {
    state: u64,
}

impl WorldRng {
    pub closed spec fn state(self) -> u64 {
        self.state
    }

    /// Advances the state and returns its top 31 bits.
    pub fn next_u32(&mut self) -> (v: u32)
        ensures
            final(self).state() == lcg_step(old(self).state()),
            v == lcg_bits(old(self).state()),
    {
        let ghost s = self.state as nat;
        let a = self.state.wrapping_mul(LCG_MUL);
        let b = a.wrapping_add(LCG_INC);
        proof {
            let m = 0x1_0000_0000_0000_0000int;
            lemma_add_mod_noop((s * LCG_MUL as nat) as int, LCG_INC as int, m);
            assert((LCG_INC as int) % m == LCG_INC as int);
            assert(a as int == ((s * LCG_MUL as nat) as int) % m);
            assert(b as int == (a as int + LCG_INC as int) % m);
        }
        self.state = b;
        (b >> 33) as u32
    }

    /// A value in `[lo, hi)`: `lo` plus the drawn bits modulo `hi - lo`.
    pub fn range(&mut self, lo: u32, hi: u32) -> (v: u32)
        requires
            lo < hi,
        ensures
            final(self).state() == lcg_step(old(self).state()),
            v == lo + lcg_bits(old(self).state()) % ((hi - lo) as u32),
            lo <= v < hi,
    {
        let x = self.next_u32();
        lo + x % (hi - lo)
    }
}

impl Default for WorldRng {
    fn default() -> (r: Self)
        ensures
            r.state() == WORLD_SEED,
    {
        WorldRng { state: WORLD_SEED }
    }
}

} // verus!
