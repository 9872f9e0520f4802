//! The game engine's seeded pseudo-random number generator.
//!
//! The engine seeds four 32-bit words from the seed by a multiply-add chain
//! and then steps them with Marsaglia's xorshift128. Every draw is modelled
//! here as a pure function of the generator state, so that a whole
//! simulation run is a mathematical function of its seed.
//!
//! A generator value also carries a draw budget. The game's rejection
//! loops redraw until a candidate is accepted, with no bound; here every
//! draw spends one unit of budget and a loop that runs out fails
//! explicitly. The default budget is far beyond what any run can spend,
//! so the budget only serves to make every loop provably terminating.

use vstd::prelude::*;
use crate::rating::{rating_bits, spec_rating};

verus! {

/// Multiplier of the seeding chain (from the Mersenne Twister family).
pub const SEED_MULTIPLIER: u32 = 0x6C07_8965;

/// State and draw budget of the generator.
pub struct Prng {
    pub s0: u32,
    pub s1: u32,
    pub s2: u32,
    pub s3: u32,
    /// Draws left before the run is declared failed.
    pub budget: u64,
}

/// One step of the seeding chain: `s * SEED_MULTIPLIER + 1` modulo `2^32`.
pub open spec fn spec_seed_step(s: u32) -> u32 {
    (((s as int) * (SEED_MULTIPLIER as int) + 1) % 0x1_0000_0000) as u32
}

/// The four state words seeded from `seed`, with the given budget.
pub open spec fn spec_init(seed: u32, budget: u64) -> Prng {
    let s0 = seed;
    let s1 = spec_seed_step(s0);
    let s2 = spec_seed_step(s1);
    let s3 = spec_seed_step(s2);
    Prng { s0, s1, s2, s3, budget }
}

/// The raw 32-bit value produced by one xorshift128 step.
pub open spec fn spec_next_value(p: Prng) -> u32 {
    let t = p.s0 ^ (p.s0 << 11);
    let s = p.s3 ^ (p.s3 >> 19);
    s ^ (t ^ (t >> 8))
}

/// The generator state after one step, with one unit of budget spent.
pub open spec fn spec_next_state(p: Prng) -> Prng {
    Prng {
        s0: p.s1,
        s1: p.s2,
        s2: p.s3,
        s3: spec_next_value(p),
        budget: (p.budget - 1) as u64,
    }
}

/// One budgeted draw: the value and the successor state, or nothing
/// when the budget is spent.
pub open spec fn spec_draw(p: Prng) -> Option<(u32, Prng)> {
    if p.budget == 0 {
        None
    } else {
        Some((spec_next_value(p), spec_next_state(p)))
    }
}

impl Prng {
    /// Seeds the generator exactly as the engine's `InitState` does.
    pub fn init_state(seed: u32, budget: u64) -> (p: Prng)
        ensures
            p == spec_init(seed, budget),
    {
        let s0 = seed;
        let s1 = seed_step(s0);
        let s2 = seed_step(s1);
        let s3 = seed_step(s2);
        Prng { s0, s1, s2, s3, budget }
    }

    /// Draws the next raw 32-bit value, or fails when the budget is spent.
    pub fn next_u32(&mut self) -> (r: Option<u32>)
        ensures
            match r {
                Some(v) => spec_draw(*old(self)) == Some((v, *final(self))),
                None => spec_draw(*old(self)) is None && *final(self) == *old(self),
            },
    {
        if self.budget == 0 {
            return None;
        }
        self.budget = self.budget - 1;
        let t = self.s0 ^ (self.s0 << 11u32);
        let s = self.s3 ^ (self.s3 >> 19u32);
        let v = s ^ (t ^ (t >> 8u32));
        self.s0 = self.s1;
        self.s1 = self.s2;
        self.s2 = self.s3;
        self.s3 = v;
        Some(v)
    }
}


/// One budgeted `range_int(min, max)` draw: the engine reduces a raw draw
/// into `[min, max)` by a remainder, or returns `min` when the range is
/// empty (still spending the draw).
pub open spec fn spec_range_int(p: Prng, min: i32, max: i32) -> Option<(i32, Prng)>
    recommends
        0 <= min <= max,
{
    match spec_draw(p) {
        None => None,
        Some((v, p2)) => {
            let diff = max - min;
            if diff > 0 {
                Some(((min + (v as int % diff as int)) as i32, p2))
            } else {
                Some((min, p2))
            }
        },
    }
}

/// One budgeted rating draw: the bit pattern of the engine's
/// `range_float(0, 1)` result.
pub open spec fn spec_rating_draw(p: Prng) -> Option<(u32, Prng)> {
    match spec_draw(p) {
        None => None,
        Some((v, p2)) => Some((spec_rating(v), p2)),
    }
}

impl Prng {
    /// Draws an integer in `[min, max)` (or `min` when the range is
    /// empty), or fails when the budget is spent.
    pub fn range_int(&mut self, min: i32, max: i32) -> (r: Option<i32>)
        requires
            0 <= min <= max,
        ensures
            match r {
                Some(v) => spec_range_int(*old(self), min, max) == Some((v, *final(self)))
                    && min <= v && (min < max ==> v < max),
                None => spec_range_int(*old(self), min, max) is None && *final(self) == *old(
                    self,
                ),
            },
    {
        match self.next_u32() {
            None => None,
            Some(v) => {
                let diff = (max - min) as u32;
                if diff > 0 {
                    Some(min + ((v % diff) as i32))
                } else {
                    Some(min)
                }
            },
        }
    }

    /// Draws a rating, or fails when the budget is spent.
    pub fn next_rating(&mut self) -> (r: Option<u32>)
        ensures
            match r {
                Some(v) => spec_rating_draw(*old(self)) == Some((v, *final(self))),
                None => spec_rating_draw(*old(self)) is None && *final(self) == *old(self),
            },
    {
        match self.next_u32() {
            None => None,
            Some(v) => Some(rating_bits(v)),
        }
    }
}

/// One step of the seeding chain.
fn seed_step(s: u32) -> (r: u32)
    ensures
        r == spec_seed_step(s),
{
    proof {
        assert((s as int) * (SEED_MULTIPLIER as int) < 0x8000_0000_0000_0000) by (nonlinear_arith)
            requires
                s <= 0xFFFF_FFFF,
        ;
    }
    (((s as u64) * (SEED_MULTIPLIER as u64) + 1) % 0x1_0000_0000) as u32
}

} // verus!
