//! A 48-bit linear congruential generator, the stream behind `drand48`.

use vstd::prelude::*;

verus! {

/// The multiplier of the recurrence.
pub const MULTIPLIER: u64 = 0x5DEECE66D;

/// The increment of the recurrence.
pub const INCREMENT: u64 = 0xB;

/// Every state is below this bound: the state holds 48 bits.
pub const MODULUS: u64 = 0x1000000000000;

/// The state a generator starts from when it is given no seed.
pub const DEFAULT_STATE: u64 = 0x1234ABCD330E;

/// The low 16 bits that seeding puts below the 32 bits of a seed.
pub const SEED_LOW: u64 = 0x330E;

/// The state that follows `x`.
pub open spec fn lcg_next(x: nat) -> nat {
    ((MULTIPLIER * x + INCREMENT) % (MODULUS as int)) as nat
}

/// The state that a seed gives: the seed in the high 32 bits, `SEED_LOW` below.
pub open spec fn seed_state(seed: nat) -> nat {
    seed * 0x10000 + SEED_LOW as nat
}

/// The first `n` values drawn from a generator in state `x`.
pub open spec fn stream(x: nat, n: nat) -> Seq<nat>
    decreases n,
{
    if n == 0 {
        Seq::empty()
    } else {
        seq![lcg_next(x)] + stream(lcg_next(x), (n - 1) as nat)
    }
}

/// A generator: its view is its current 48-bit state.
pub struct Rand48 {
    state: u64,
}

impl View for Rand48 {
    type V = nat;

    closed spec fn view(&self) -> nat {
        self.state as nat
    }
}

impl Rand48 {
    #[verifier::type_invariant]
    spec fn inv(&self) -> bool {
        self.state < MODULUS
    }

    /// A generator in the state that `drand48` has before any seeding.
    pub fn new() -> (r: Rand48)
        ensures
            r@ == DEFAULT_STATE as nat,
    {
        Rand48 { state: DEFAULT_STATE }
    }

    /// A generator seeded as `srand48(seed)` seeds one.
    pub fn seeded(seed: u32) -> (r: Rand48)
        ensures
            r@ == seed_state(seed as nat),
    {
        let s: u64 = (seed as u64) * 0x10000 + SEED_LOW;
        Rand48 { state: s }
    }

    /// Advances the state and returns the new one: 48 random bits, which read
    /// as a fraction of `MODULUS` give a value in `[0, 1)`.
    pub fn next_bits(&mut self) -> (r: u64)
        ensures
            r as nat == lcg_next(old(self)@),
            final(self)@ == r as nat,
            r < MODULUS,
    {
        proof {
            use_type_invariant(&*self);
        }
        let x: u128 = self.state as u128;
        assert(MULTIPLIER as u128 * x <= 0x5DEECE66D * 0x1000000000000) by (nonlinear_arith)
            requires
                x < 0x1000000000000,
        ;
        let next: u128 = (MULTIPLIER as u128 * x + INCREMENT as u128) % (MODULUS as u128);
        self.state = next as u64;
        next as u64
    }
}

} // verus!
