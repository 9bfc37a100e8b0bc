//! Deterministic pseudo-random stream: a xorshift64* generator whose whole
//! behaviour is pinned down by spec functions, so that every draw (and hence
//! everything generated from a seed) is a mathematical function of the seed.

use vstd::prelude::*;

verus! {

/// Seeded pseudo-random generator (xorshift64* construction).
/// The same seed yields the same stream on every run and every platform.
pub struct PseudoRng(u64);

impl View for PseudoRng {
    type V = u64;

    closed spec fn view(&self) -> u64 {
        self.0
    }
}

/// One xorshift64 state-advance step.
pub open spec fn spec_step(x: u64) -> u64 {
    let a = x ^ (x << 13);
    let b = a ^ (a >> 7);
    b ^ (b << 17)
}

/// The 32-bit output derived from a state: the low word multiplied
/// (wrapping) by the constant 0x9E3779B1.
pub open spec fn spec_mix(x: u64) -> u32 {
    (((x % 0x1_0000_0000) * 0x9E37_79B1) % 0x1_0000_0000) as u32
}

/// The value `gen_range` draws for bounds `[lo, hi)` from state `x`:
/// `lo` for an empty range, otherwise `lo` plus the next output reduced
/// modulo the range length.
pub open spec fn spec_range_draw(x: u64, lo: int, hi: int) -> int {
    if lo < hi {
        lo + (spec_mix(spec_step(x)) as int % (hi - lo))
    } else {
        lo
    }
}

impl PseudoRng {
    pub fn new(seed: u64) -> (r: Self)
        ensures
            r@ == seed,
    {
        Self(seed)
    }

    /// Advances the state once and returns the mixed 32-bit output.
    pub fn next_u32(&mut self) -> (r: u32)
        ensures
            final(self)@ == spec_step(old(self)@),
            r == spec_mix(spec_step(old(self)@)),
    {
        let mut x = self.0;
        x = x ^ (x << 13);
        x = x ^ (x >> 7);
        x = x ^ (x << 17);
        self.0 = x;
        let lo: u64 = x % 0x1_0000_0000u64;
        proof {
            assert(lo * 0x9E37_79B1u64 <= 0xFFFF_FFFFu64 * 0x9E37_79B1u64) by (nonlinear_arith)
                requires
                    lo <= 0xFFFF_FFFFu64,
            ;
        }
        let prod: u64 = lo * 0x9E37_79B1u64;
        let r: u32 = (prod % 0x1_0000_0000u64) as u32;
        proof {
            assert(r == spec_mix(x));
        }
        r
    }

    /// Uniform-ish draw from `[range.start, range.end)`; returns `range.start`
    /// when the range is empty, and never faults. The result and the new
    /// state are functions of the old state and the bounds alone.
    pub fn gen_range(&mut self, range: core::ops::Range<usize>) -> (r: usize)
        ensures
            r == spec_range_draw(old(self)@, range.start as int, range.end as int),
            range.start < range.end ==> final(self)@ == spec_step(old(self)@),
            range.start < range.end ==> range.start <= r < range.end,
            range.start >= range.end ==> final(self)@ == old(self)@ && r == range.start,
    {
        if range.end <= range.start {
            return range.start;
        }
        let len: usize = range.end - range.start;
        let draw: u32 = self.next_u32();
        let offset: usize = (draw as usize) % len;
        range.start + offset
    }
}

} // verus!
