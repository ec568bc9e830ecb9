use survey::rng::{Rng, ZERO_SEED_REPLACEMENT};

#[test]
fn xorshift_known_values() {
    let mut rng = Rng::new(1);
    assert_eq!(rng.next_u64(), 1082269761);
    assert_eq!(rng.next_u64(), 1152992998833853505);
}

#[test]
fn zero_seed_is_replaced() {
    let mut a = Rng::new(0);
    let mut b = Rng::new(ZERO_SEED_REPLACEMENT);
    for _ in 0..100 {
        let x = a.next_u64();
        assert_eq!(x, b.next_u64());
        assert_ne!(x, 0);
    }
    let mut c = Rng::new(0);
    assert_eq!(c.next_u64(), 2872300871512351504);
}

#[test]
fn same_seed_same_sequence() {
    let mut a = Rng::new(12345);
    let mut b = Rng::new(12345);
    for _ in 0..1000 {
        assert_eq!(a.next_u64(), b.next_u64());
    }
}

#[test]
fn outputs_never_zero() {
    for seed in [1u64, 2, 3, u64::MAX, 1 << 63, 0x8000_0001] {
        let mut rng = Rng::new(seed);
        for _ in 0..10_000 {
            assert_ne!(rng.next_u64(), 0);
        }
    }
}

#[test]
fn fraction_bits_are_upper_half() {
    let mut a = Rng::new(1);
    let mut b = Rng::new(1);
    for _ in 0..100 {
        let x = a.next_u64();
        assert_eq!(b.next_fraction_bits() as u64, x >> 32);
    }
}
