//! The linear congruential generator that draws piece kinds.
use vstd::prelude::*;

use crate::pieces::{kind_at, Kind};

verus! {

/// One step of the generator: `s * 6364136223846793005 + 1442695040888963407`
/// modulo 2^64.
#[verifier::opaque]
pub open spec fn lcg_step(s: u64) -> u64 {
    vstd::wrapping::u64_specs::wrapping_add(
        vstd::wrapping::u64_specs::wrapping_mul(s, 6_364_136_223_846_793_005u64),
        1_442_695_040_888_963_407u64,
    )
}

/// The 32-bit number drawn from state `s`: the high half of the next state.
pub open spec fn lcg_output(s: u64) -> u32 {
    (lcg_step(s) >> 32u64) as u32
}

/// The kind drawn from state `s`.
pub open spec fn kind_draw(s: u64) -> Kind {
    kind_at((lcg_output(s) % 7) as int)
}

/// The state after `n` draws from state `s`.
pub open spec fn lcg_steps(s: u64, n: nat) -> u64
    decreases n,
{
    if n == 0 {
        s
    } else {
        lcg_step(lcg_steps(s, (n - 1) as nat))
    }
}

/// A small deterministic pseudo-random generator.
#[derive(Clone)]
pub struct Rng {
    state: u64,
}

impl View for Rng {
    type V = u64;

    closed spec fn view(&self) -> u64 {
        self.state
    }
}

impl Rng {
    /// A generator seeded with `seed`; the lowest bit of the state is forced on.
    pub fn new(seed: u64) -> (r: Rng)
        ensures
            r@ == seed | 1u64,
    {
        Rng { state: seed | 1 }
    }

    fn next_u32(&mut self) -> (r: u32)
        ensures
            final(self)@ == lcg_step(old(self)@),
            r == lcg_output(old(self)@),
    {
        proof {
            reveal(lcg_step);
        }
        self.state = self.state.wrapping_mul(6_364_136_223_846_793_005).wrapping_add(
            1_442_695_040_888_963_407,
        );
        (self.state >> 32) as u32
    }

    fn range(&mut self, max: u32) -> (r: u32)
        ensures
            final(self)@ == lcg_step(old(self)@),
            r == lcg_output(old(self)@) % (if max >= 1 { max } else { 1u32 }),
    {
        let m: u32 = if max >= 1 { max } else { 1 };
        self.next_u32() % m
    }
}

/// Draws a kind: the generator's next output modulo 7 indexes `Kind::ALL`.
pub fn random_kind(rng: &mut Rng) -> (k: Kind)
    ensures
        final(rng)@ == lcg_step(old(rng)@),
        k == kind_draw(old(rng)@),
{
    let i = rng.range(7);
    Kind::ALL[i as usize]
}

} // verus!
