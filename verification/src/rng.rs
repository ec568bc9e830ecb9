//! Minimal seeded random number generator based on xorshift64.
//!
//! Not cryptographic, but uniform and fast enough for procedural generation.
//! The same seed always produces the same sequence.
use vstd::prelude::*;

verus! {

/// The state that `Rng::new` uses in place of a zero seed: xorshift maps zero
/// to zero, so a zero state would produce zeros forever.
pub const ZERO_SEED_REPLACEMENT: u64 = 0xDEAD_BEEF_CAFE_1234;

/// The initial state of a generator created from `seed`.
pub open spec fn seed_state(seed: u64) -> u64 {
    if seed == 0 {
        ZERO_SEED_REPLACEMENT
    } else {
        seed
    }
}

/// One xorshift64 step (shifts 13, 7, 17).
pub open spec fn xorshift(x: u64) -> u64 {
    let a = x ^ (x << 13);
    let b = a ^ (a >> 7);
    b ^ (b << 17)
}

/// The state after `n` steps from `state`.
pub open spec fn state_after(state: u64, n: nat) -> u64
    decreases n,
{
    if n == 0 {
        state
    } else {
        xorshift(state_after(state, (n - 1) as nat))
    }
}

/// The `n`-th output (counting from 1) of a generator created from `seed`.
pub open spec fn nth_output(seed: u64, n: nat) -> u64 {
    state_after(seed_state(seed), n)
}

/// The upper 32 bits of a 64-bit output: the numerator of the unit value
/// `bits / 2^32` that the generator hands out as a fraction.
pub open spec fn high_bits(x: u64) -> u32 {
    (x >> 32) as u32
}

/// A xorshift64 generator.  Its state is never zero.
pub struct Rng(u64);

impl Rng {
    #[verifier::type_invariant]
    spec fn state_is_nonzero(self) -> bool {
        self.0 != 0
    }
}

impl View for Rng {
    type V = u64;

    /// The generator's current state, which is also its last output.
    closed spec fn view(&self) -> u64 {
        self.0
    }
}

/// Each of the three xorshift steps maps a nonzero word to a nonzero word.
proof fn lemma_steps_nonzero(x: u64)
    requires
        x != 0,
    ensures
        x ^ (x << 13) != 0,
        (x ^ (x >> 7)) != 0,
        x ^ (x << 17) != 0,
{
    assert(x ^ (x << 13) != 0) by (bit_vector)
        requires
            x != 0,
    ;
    assert(x ^ (x >> 7) != 0) by (bit_vector)
        requires
            x != 0,
    ;
    assert(x ^ (x << 17) != 0) by (bit_vector)
        requires
            x != 0,
    ;
}

/// Law: xorshift never maps a nonzero state to zero, so a generator that
/// starts away from zero never gets stuck there.
pub proof fn law_xorshift_nonzero(x: u64)
    requires
        x != 0,
    ensures
        xorshift(x) != 0,
{
    lemma_steps_nonzero(x);
    let a = x ^ (x << 13);
    lemma_steps_nonzero(a);
    let b = a ^ (a >> 7);
    lemma_steps_nonzero(b);
}

/// Law: every state reached from a seed is nonzero.
pub proof fn law_states_nonzero(seed: u64, n: nat)
    ensures
        nth_output(seed, n) != 0,
    decreases n,
{
    if n > 0 {
        law_states_nonzero(seed, (n - 1) as nat);
        law_xorshift_nonzero(state_after(seed_state(seed), (n - 1) as nat));
    }
}

/// Law: xorshift is injective, so two generators in different states never
/// merge into the same stream.
pub proof fn law_xorshift_injective(x: u64, y: u64)
    requires
        xorshift(x) == xorshift(y),
    ensures
        x == y,
{
    let ax = x ^ (x << 13);
    let ay = y ^ (y << 13);
    let bx = ax ^ (ax >> 7);
    let by_ = ay ^ (ay >> 7);
    assert(bx == by_) by (bit_vector)
        requires
            bx ^ (bx << 17) == by_ ^ (by_ << 17),
    ;
    assert(ax == ay) by (bit_vector)
        requires
            ax ^ (ax >> 7) == ay ^ (ay >> 7),
    ;
    assert(x == y) by (bit_vector)
        requires
            x ^ (x << 13) == y ^ (y << 13),
    ;
}

impl Rng {
    /// Creates a generator from `seed`; a zero seed is replaced by
    /// `ZERO_SEED_REPLACEMENT`.
    pub fn new(seed: u64) -> (r: Self)
        ensures
            r@ == seed_state(seed),
            r@ != 0,
    {
        Rng(
            if seed == 0 {
                ZERO_SEED_REPLACEMENT
            } else {
                seed
            },
        )
    }

    /// Advances the state by one xorshift step and returns the new state.
    pub fn next_u64(&mut self) -> (r: u64)
        ensures
            final(self)@ == xorshift(old(self)@),
            r == final(self)@,
            r != 0,
    {
        proof {
            use_type_invariant(&*self);
        }
        let ghost s0 = self@;
        let mut x = self.0;
        x ^= x << 13;
        x ^= x >> 7;
        x ^= x << 17;
        proof {
            law_xorshift_nonzero(s0);
        }
        self.0 = x;
        x
    }

    /// Advances the generator and returns the upper 32 bits of the new
    /// state.  Read as `bits / 2^32`, this is the generator's uniform unit
    /// value.
    pub fn next_fraction_bits(&mut self) -> (r: u32)
        ensures
            final(self)@ == xorshift(old(self)@),
            r == high_bits(final(self)@),
    {
        let x = self.next_u64();
        (x >> 32) as u32
    }
}

} // verus!
