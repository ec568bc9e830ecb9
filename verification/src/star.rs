//! Procedural star data: per-star seeds and the random draws that decide a
//! star's position, colour, brightness and planetary system.
use vstd::prelude::*;
use vstd::arithmetic::div_mod::{lemma_mul_mod_noop_left, lemma_mod_multiples_vanish, lemma_small_mod};
use vstd::arithmetic::mul::{lemma_mul_is_associative, lemma_mul_is_distributive_add};
use crate::rng::{Rng, seed_state, state_after, xorshift, high_bits};

verus! {

/// Weyl-sequence increment (the 64-bit golden ratio).
pub const WEYL_STEP: u64 = 0x9e3779b97f4a7c15;

/// First SplitMix64 multiplier.
pub const MIX_1: u64 = 0xbf58476d1ce4e5b9;

/// Second SplitMix64 multiplier.
pub const MIX_2: u64 = 0x94d049bb133111eb;

/// The SplitMix64 avalanche applied to a Weyl-sequence position.
pub open spec fn avalanche(x0: u64) -> u64 {
    let x1 = (x0 ^ (x0 >> 30)).wrapping_mul(MIX_1);
    let x2 = (x1 ^ (x1 >> 27)).wrapping_mul(MIX_2);
    x2 ^ (x2 >> 31)
}

/// The seed of star `index` under world seed `global_seed`.
pub open spec fn spec_star_seed(global_seed: u64, index: u64) -> u64 {
    avalanche(global_seed.wrapping_add(index.wrapping_mul(WEYL_STEP)))
}

/// Derives an independent seed for star `index` from the global world seed.
///
/// Uses a hash (Weyl sequence + SplitMix64 avalanche) so star N can be
/// generated without first generating stars 0..N-1.
pub fn star_seed(global_seed: u64, index: usize) -> (r: u64)
    ensures
        r == spec_star_seed(global_seed, index as u64),
{
    let mut x = global_seed.wrapping_add((index as u64).wrapping_mul(WEYL_STEP));
    x = (x ^ (x >> 30)).wrapping_mul(MIX_1);
    x = (x ^ (x >> 27)).wrapping_mul(MIX_2);
    x ^ (x >> 31)
}

// ─── Injectivity of the seed hash ────────────────────────────────────────────

/// Multiplying by `c` modulo 2^64 is undone by multiplying by `c_inv` when
/// `c * c_inv == 1 + k * 2^64`.
proof fn lemma_mul_undo(x: u64, c: u64, c_inv: u64, k: int)
    requires
        k >= 0,
        c as int * c_inv as int == 1 + k * 0x1_0000_0000_0000_0000,
    ensures
        x.wrapping_mul(c).wrapping_mul(c_inv) == x,
{
    let m: int = 0x1_0000_0000_0000_0000;
    let p: int = x as int * c as int;
    assert(x.wrapping_mul(c) as int == p % m);
    lemma_mul_mod_noop_left(p, c_inv as int, m);
    lemma_mul_is_associative(x as int, c as int, c_inv as int);
    lemma_mul_is_distributive_add(x as int, 1, k * m);
    lemma_mul_is_associative(x as int, k, m);
    assert(x as int * (1 + k * m) == m * (x as int * k) + x as int) by (nonlinear_arith)
        requires
            x as int * (1 + k * m) == x as int * 1 + x as int * (k * m),
            x as int * (k * m) == (x as int * k) * m,
    ;
    lemma_mod_multiples_vanish(x as int * k, x as int, m);
    lemma_small_mod(x as nat, m as nat);
    assert((p % m) * c_inv as int % m == x as int);
}

proof fn lemma_mul_injective(x: u64, y: u64, c: u64, c_inv: u64, k: int)
    requires
        k >= 0,
        c as int * c_inv as int == 1 + k * 0x1_0000_0000_0000_0000,
        x.wrapping_mul(c) == y.wrapping_mul(c),
    ensures
        x == y,
{
    lemma_mul_undo(x, c, c_inv, k);
    lemma_mul_undo(y, c, c_inv, k);
}

proof fn lemma_weyl_injective(x: u64, y: u64)
    requires
        x.wrapping_mul(WEYL_STEP) == y.wrapping_mul(WEYL_STEP),
    ensures
        x == y,
{
    assert(WEYL_STEP as int * 0xf1de83e19937733d == 1 + 10771413168148108919 * 0x1_0000_0000_0000_0000int);
    lemma_mul_injective(x, y, WEYL_STEP, 0xf1de83e19937733d, 10771413168148108919);
}

/// Law: the avalanche is injective, so distinct Weyl positions give distinct
/// seeds.
pub proof fn law_avalanche_injective(x: u64, y: u64)
    requires
        avalanche(x) == avalanche(y),
    ensures
        x == y,
{
    let x1 = (x ^ (x >> 30)).wrapping_mul(MIX_1);
    let y1 = (y ^ (y >> 30)).wrapping_mul(MIX_1);
    let x2 = (x1 ^ (x1 >> 27)).wrapping_mul(MIX_2);
    let y2 = (y1 ^ (y1 >> 27)).wrapping_mul(MIX_2);
    assert(x2 == y2) by (bit_vector)
        requires
            x2 ^ (x2 >> 31) == y2 ^ (y2 >> 31),
    ;
    assert(MIX_2 as int * 0x319642b2d24d8ec3 == 1 + 2077064247507883091 * 0x1_0000_0000_0000_0000int);
    lemma_mul_injective(x1 ^ (x1 >> 27), y1 ^ (y1 >> 27), MIX_2, 0x319642b2d24d8ec3, 2077064247507883091);
    assert(x1 == y1) by (bit_vector)
        requires
            x1 ^ (x1 >> 27) == y1 ^ (y1 >> 27),
    ;
    assert(MIX_1 as int * 0x96de1b173f119089 == 1 + 8125545580553827436 * 0x1_0000_0000_0000_0000int);
    lemma_mul_injective(x ^ (x >> 30), y ^ (y >> 30), MIX_1, 0x96de1b173f119089, 8125545580553827436);
    assert(x == y) by (bit_vector)
        requires
            x ^ (x >> 30) == y ^ (y >> 30),
    ;
}

/// Law: for a fixed world seed, different stars get different seeds.
pub proof fn law_star_seed_distinct_indices(global_seed: u64, i: u64, j: u64)
    requires
        i != j,
    ensures
        spec_star_seed(global_seed, i) != spec_star_seed(global_seed, j),
{
    if spec_star_seed(global_seed, i) == spec_star_seed(global_seed, j) {
        law_avalanche_injective(
            global_seed.wrapping_add(i.wrapping_mul(WEYL_STEP)),
            global_seed.wrapping_add(j.wrapping_mul(WEYL_STEP)),
        );
        lemma_weyl_injective(i, j);
    }
}

/// Law: for a fixed star index, different world seeds give different seeds.
pub proof fn law_star_seed_distinct_worlds(g1: u64, g2: u64, index: u64)
    requires
        g1 != g2,
    ensures
        spec_star_seed(g1, index) != spec_star_seed(g2, index),
{
    if spec_star_seed(g1, index) == spec_star_seed(g2, index) {
        law_avalanche_injective(
            g1.wrapping_add(index.wrapping_mul(WEYL_STEP)),
            g2.wrapping_add(index.wrapping_mul(WEYL_STEP)),
        );
    }
}

// ─── Star draws ──────────────────────────────────────────────────────────────

/// The `k`-th output (counting from 1) of the generator seeded for star
/// `index` under world seed `global_seed`.
pub open spec fn star_output(global_seed: u64, index: u64, k: nat) -> u64 {
    state_after(seed_state(spec_star_seed(global_seed, index)), k)
}

/// How many planets beyond the guaranteed first one a star gets, from the
/// difficulty and a roll in `0..100`.  Difficulties 1–2 add one planet 7 %
/// of the time, 3–4 half of the time; any other difficulty adds one planet
/// 55 % of the time and two planets 25 % of the time.
pub open spec fn extra_planets(difficulty: u8, roll: u64) -> nat {
    if difficulty == 1 || difficulty == 2 {
        if roll < 93 { 0 } else { 1 }
    } else if difficulty == 3 || difficulty == 4 {
        if roll < 50 { 0 } else { 1 }
    } else {
        if roll < 20 { 0 } else if roll < 75 { 1 } else { 2 }
    }
}

/// The number of planets of star `index` at the given difficulty.
pub open spec fn spec_planet_count(global_seed: u64, index: u64, difficulty: u8) -> nat {
    1 + extra_planets(difficulty, star_output(global_seed, index, 5) % 100)
}

/// The random draws behind one planet.  Each is the numerator of a unit
/// value `bits / 2^32`.
#[derive(Clone, Copy, Debug, PartialEq, Eq)]
pub struct PlanetDraws {
    /// Orbit orientation draw (drawn, though the wobble axis is fixed).
    pub angle: u32,
    /// Mass draw; the mass spans 0.3–5.0 Jupiter masses.
    pub mass: u32,
    /// Period draw; the period spans 5–40 seconds.
    pub period: u32,
    /// Eccentricity draw; the eccentricity spans 0.0–0.7.
    pub eccentricity: u32,
}

/// The random draws behind all properties of one star.  Each is the
/// numerator of a unit value `bits / 2^32`.
#[derive(Debug, PartialEq, Eq)]
pub struct StarDraws {
    /// Normalised screen position draws `(x, y)`.
    pub position: (u32, u32),
    /// Temperature draw; the temperature spans 3 000–20 000 K.
    pub temperature: u32,
    /// Brightness draw; the brightness is `exp` of a value in -2.0–1.5.
    pub brightness: u32,
    /// One entry per planet of the true planetary system.
    pub planets: Vec<PlanetDraws>,
}

/// The draws of planet `p` (counting from 0) of star `index`.
pub open spec fn spec_planet_draws(global_seed: u64, index: u64, p: nat) -> PlanetDraws {
    PlanetDraws {
        angle: high_bits(star_output(global_seed, index, 6 + 4 * p)),
        mass: high_bits(star_output(global_seed, index, 7 + 4 * p)),
        period: high_bits(star_output(global_seed, index, 8 + 4 * p)),
        eccentricity: high_bits(star_output(global_seed, index, 9 + 4 * p)),
    }
}

/// Unfolds `state_after` over the four steps that follow step `n`.
proof fn lemma_state_after_steps(s: u64, n: nat)
    ensures
        state_after(s, n + 1) == xorshift(state_after(s, n)),
        state_after(s, n + 2) == xorshift(state_after(s, n + 1)),
        state_after(s, n + 3) == xorshift(state_after(s, n + 2)),
        state_after(s, n + 4) == xorshift(state_after(s, n + 3)),
{
}

/// The planet-count rule of `generate_star_draws`.
fn planet_count(difficulty: u8, roll: u64) -> (n: usize)
    requires
        roll < 100,
    ensures
        n == 1 + extra_planets(difficulty, roll),
{
    let extra: usize = match difficulty {
        1 | 2 => if roll < 93 { 0 } else { 1 },
        3 | 4 => if roll < 50 { 0 } else { 1 },
        _ => if roll < 20 {
            0
        } else if roll < 75 {
            1
        } else {
            2
        },
    };
    1 + extra
}

/// Draws all properties of star `index` deterministically from
/// `global_seed`.  `difficulty` controls how many planets may appear: low
/// difficulties almost always yield 1; high difficulties can yield 2–3.
///
/// The draws come from one generator seeded with `star_seed`, in this order:
/// position x, position y, temperature, brightness, the planet-count roll
/// (`output % 100`), then angle, mass, period and eccentricity per planet.
pub fn generate_star_draws(global_seed: u64, index: usize, difficulty: u8) -> (d: StarDraws)
    ensures
        d.position.0 == high_bits(star_output(global_seed, index as u64, 1)),
        d.position.1 == high_bits(star_output(global_seed, index as u64, 2)),
        d.temperature == high_bits(star_output(global_seed, index as u64, 3)),
        d.brightness == high_bits(star_output(global_seed, index as u64, 4)),
        d.planets.len() == spec_planet_count(global_seed, index as u64, difficulty),
        forall|p: int|
            0 <= p < d.planets.len() ==> #[trigger] d.planets[p] == spec_planet_draws(
                global_seed,
                index as u64,
                p as nat,
            ),
{
    let ghost g = global_seed;
    let ghost i = index as u64;
    let mut rng = Rng::new(star_seed(global_seed, index));
    let ghost s0 = rng@;
    proof {
        lemma_state_after_steps(s0, 0);
        lemma_state_after_steps(s0, 4);
    }
    let x = rng.next_fraction_bits();
    let y = rng.next_fraction_bits();
    let temperature = rng.next_fraction_bits();
    let brightness = rng.next_fraction_bits();
    let roll = rng.next_u64() % 100;
    let count = planet_count(difficulty, roll);
    let mut planets: Vec<PlanetDraws> = Vec::new();
    let mut p: usize = 0;
    while p < count
        invariant
            count == spec_planet_count(g, i, difficulty),
            count <= 3,
            p <= count,
            planets.len() == p,
            rng@ == star_output(g, i, (5 + 4 * p) as nat),
            forall|q: int| 0 <= q < p ==> #[trigger] planets[q] == spec_planet_draws(g, i, q as nat),
        decreases count - p,
    {
        proof {
            lemma_state_after_steps(s0, (5 + 4 * p) as nat);
        }
        let angle = rng.next_fraction_bits();
        let mass = rng.next_fraction_bits();
        let period = rng.next_fraction_bits();
        let eccentricity = rng.next_fraction_bits();
        let draws = PlanetDraws { angle, mass, period, eccentricity };
        assert(draws == spec_planet_draws(g, i, p as nat));
        planets.push(draws);
        p = p + 1;
    }
    StarDraws { position: (x, y), temperature, brightness, planets }
}

/// Law: the number of extra planets depends only on the difficulty class:
/// difficulties 1 and 2 behave alike, 3 and 4 behave alike, and every other
/// difficulty (0 and everything from 5 up) behaves like difficulty 5.
pub proof fn law_difficulty_classes(difficulty: u8, roll: u64)
    ensures
        (difficulty == 1 || difficulty == 2) ==> extra_planets(difficulty, roll) == extra_planets(1, roll),
        (difficulty == 3 || difficulty == 4) ==> extra_planets(difficulty, roll) == extra_planets(3, roll),
        !(1 <= difficulty <= 4) ==> extra_planets(difficulty, roll) == extra_planets(5, roll),
{
}

/// Law: for every roll, a harder class never yields fewer planets than an
/// easier one; the hardest class can add two planets, the others at most
/// one, and the easiest class adds none for most rolls.
pub proof fn law_difficulty_ordering(roll: u64)
    requires
        roll < 100,
    ensures
        extra_planets(1, roll) <= extra_planets(3, roll) <= extra_planets(5, roll),
        extra_planets(1, roll) <= 1,
        extra_planets(3, roll) <= 1,
        extra_planets(5, roll) <= 2,
        extra_planets(5, 99) == 2,
        extra_planets(3, 99) == 1,
        roll < 93 ==> extra_planets(1, roll) == 0,
{
}

/// Law: a star always has at least one planet; difficulties 1–4 give at
/// most two planets and every other difficulty at most three.
pub proof fn law_planet_count_bounds(global_seed: u64, index: u64, difficulty: u8)
    ensures
        1 <= spec_planet_count(global_seed, index, difficulty),
        1 <= difficulty <= 4 ==> spec_planet_count(global_seed, index, difficulty) <= 2,
        spec_planet_count(global_seed, index, difficulty) <= 3,
{
}

} // verus!
