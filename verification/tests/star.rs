use survey::rng::Rng;
use survey::star::{generate_star_draws, star_seed};

/// The unit value `bits / 2^32` that a fraction draw stands for.
fn unit(bits: u32) -> f32 {
    bits as f32 / (u32::MAX as f32 + 1.0)
}

fn range(bits: u32, min: f32, max: f32) -> f32 {
    min + unit(bits) * (max - min)
}

#[test]
fn star_seed_is_deterministic() {
    assert_eq!(star_seed(42, 7), star_seed(42, 7));
}

#[test]
fn star_seed_differs_by_index() {
    assert_ne!(star_seed(42, 0), star_seed(42, 1));
}

#[test]
fn star_seed_differs_by_global_seed() {
    assert_ne!(star_seed(1, 0), star_seed(2, 0));
}

#[test]
fn generate_star_data_is_deterministic() {
    let a = generate_star_draws(99, 5, 3);
    let b = generate_star_draws(99, 5, 3);
    assert_eq!(range(a.temperature, 3_000.0, 20_000.0), range(b.temperature, 3_000.0, 20_000.0));
    assert_eq!(a.position, b.position);
    assert_eq!(a.planets.len(), b.planets.len());
}

#[test]
fn generate_star_data_differs_by_index() {
    let a = generate_star_draws(99, 0, 3);
    let b = generate_star_draws(99, 1, 3);
    assert_ne!(range(a.temperature, 3_000.0, 20_000.0), range(b.temperature, 3_000.0, 20_000.0));
}

#[test]
fn planet_count_low_difficulty() {
    for i in 0..100 {
        let n = generate_star_draws(12345, i, 1).planets.len();
        assert!(n >= 1 && n <= 2, "difficulty 1 yielded {n} planets");
    }
}

#[test]
fn planet_count_high_difficulty() {
    for i in 0..100 {
        let n = generate_star_draws(12345, i, 6).planets.len();
        assert!(n >= 1 && n <= 3, "difficulty 6 yielded {n} planets");
    }
}

#[test]
fn star_positions_are_normalised() {
    for i in 0..20 {
        let d = generate_star_draws(777, i, 1);
        assert!((0.0..=1.0).contains(&unit(d.position.0)));
        assert!((0.0..=1.0).contains(&unit(d.position.1)));
    }
}

#[test]
fn star_seed_known_values() {
    assert_eq!(star_seed(42, 7), 4028864712777624925);
    assert_eq!(star_seed(1, 0), 6238072747940578789);
    assert_eq!(star_seed(0, 0), 0);
}

#[test]
fn star_seeds_are_distinct_over_a_range() {
    let mut seeds: Vec<u64> = (0..2000).map(|i| star_seed(7, i)).collect();
    seeds.sort();
    seeds.dedup();
    assert_eq!(seeds.len(), 2000);
    let mut worlds: Vec<u64> = (0..2000u64).map(|g| star_seed(g, 3)).collect();
    worlds.sort();
    worlds.dedup();
    assert_eq!(worlds.len(), 2000);
}

#[test]
fn star_draws_follow_the_generator() {
    let d = generate_star_draws(99, 5, 3);
    let mut rng = Rng::new(star_seed(99, 5));
    assert_eq!(d.position.0, rng.next_fraction_bits());
    assert_eq!(d.position.1, rng.next_fraction_bits());
    assert_eq!(d.temperature, rng.next_fraction_bits());
    assert_eq!(d.brightness, rng.next_fraction_bits());
    let roll = rng.next_u64() % 100;
    assert_eq!(roll, 76);
    // difficulty 3 with a roll of 76 adds one planet
    assert_eq!(d.planets.len(), 2);
    for p in &d.planets {
        assert_eq!(p.angle, rng.next_fraction_bits());
        assert_eq!(p.mass, rng.next_fraction_bits());
        assert_eq!(p.period, rng.next_fraction_bits());
        assert_eq!(p.eccentricity, rng.next_fraction_bits());
    }
    assert_eq!(d.position, (3494883254, 652973371));
    assert_eq!(d.temperature, 2868389012);
    assert_eq!(d.brightness, 1522527092);
}

#[test]
fn planet_count_depends_on_difficulty() {
    // Same star, same roll (76): difficulties 1-2 give 1 planet, 3-4 give 2,
    // and every other difficulty gives 3 (roll >= 75).
    assert_eq!(generate_star_draws(99, 5, 1).planets.len(), 1);
    assert_eq!(generate_star_draws(99, 5, 2).planets.len(), 1);
    assert_eq!(generate_star_draws(99, 5, 4).planets.len(), 2);
    assert_eq!(generate_star_draws(99, 5, 5).planets.len(), 3);
    assert_eq!(generate_star_draws(99, 5, 0).planets.len(), 3);
    assert_eq!(generate_star_draws(99, 5, 200).planets.len(), 3);
}
