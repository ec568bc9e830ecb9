use survey::rng::Rng;
use survey::starfield::{
    cardinal_neighbours, kernel_distance_sq, kernel_tap_index, random_star_size, stamp_targets,
    star_sprite_size, MEDIUM_STAR_LIMIT, SMALL_STAR_LIMIT,
};
use survey::star::star_seed;

fn unit(bits: u32) -> f32 {
    bits as f32 / (u32::MAX as f32 + 1.0)
}

#[test]
fn size_limits_match_float_thresholds() {
    assert!(unit(SMALL_STAR_LIMIT - 1) < 0.70);
    assert!(!(unit(SMALL_STAR_LIMIT) < 0.70));
    assert!(unit(MEDIUM_STAR_LIMIT - 1) < 0.92);
    assert!(!(unit(MEDIUM_STAR_LIMIT) < 0.92));
}

#[test]
fn random_star_size_follows_float_rule() {
    let mut counts = [0usize; 3];
    for i in 0..20_000usize {
        let seed = star_seed(1, i);
        let mut a = Rng::new(seed);
        let r = unit(a.next_fraction_bits());
        let expected = if r < 0.70 { 3 } else if r < 0.92 { 5 } else { 7 };
        let mut b = Rng::new(seed);
        let size = random_star_size(&mut b);
        assert_eq!(size, expected);
        counts[(size - 3) / 2] += 1;
        // the generator advanced by exactly one step
        assert_eq!(b.next_u64(), a.next_u64());
    }
    // the sizes follow the 70 / 22 / 8 split
    assert!(counts[0] > counts[1] && counts[1] > counts[2] && counts[2] > 0);
}

#[test]
fn sprite_size_uses_offset_seed() {
    for i in 0..200 {
        let mut rng = Rng::new(star_seed(42, i).wrapping_add(0x5EED_5175));
        assert_eq!(star_sprite_size(42, i), random_star_size(&mut rng));
        assert_eq!(star_sprite_size(42, i) % 2, 1);
    }
}

#[test]
fn stamp_targets_inside_field() {
    // 3x3 sprite centred on (5, 4) in a 10 x 8 field
    let t = stamp_targets(5, 4, 3, 10, 8);
    assert_eq!(t.len(), 9);
    assert_eq!(t[0], Some(3 * 10 + 4));
    assert_eq!(t[4], Some(4 * 10 + 5));
    assert_eq!(t[8], Some(5 * 10 + 6));
}

#[test]
fn stamp_targets_clip_at_edges() {
    // 3x3 sprite centred on the top-left corner
    let t = stamp_targets(0, 0, 3, 10, 8);
    assert_eq!(t, vec![None, None, None, None, Some(0), Some(1), None, Some(10), Some(11)]);
    // sprite centred beyond the bottom-right corner
    let t = stamp_targets(10, 8, 3, 10, 8);
    assert_eq!(t, vec![Some(7 * 10 + 9), None, None, None, None, None, None, None, None]);
    // sprite far outside
    let t = stamp_targets(-100, 50, 5, 10, 8);
    assert!(t.iter().all(|x| x.is_none()));
}

#[test]
fn kernel_tap_index_bounds() {
    assert_eq!(kernel_tap_index(9, 0, 0), Some(0));
    assert_eq!(kernel_tap_index(9, 8, 8), Some(80));
    assert_eq!(kernel_tap_index(9, 3, 2), Some(21));
    assert_eq!(kernel_tap_index(9, 9, 0), None);
    assert_eq!(kernel_tap_index(9, -1, 4), None);
    assert_eq!(kernel_tap_index(9, 4, 9), None);
}

#[test]
fn neighbours_of_corner_edge_and_interior() {
    assert_eq!(cardinal_neighbours(3, 0, 0), vec![1, 3]);
    assert_eq!(cardinal_neighbours(3, 1, 1), vec![3, 5, 1, 7]);
    assert_eq!(cardinal_neighbours(3, 2, 2), vec![7, 5]);
    assert_eq!(cardinal_neighbours(1, 0, 0), Vec::<usize>::new());
}

#[test]
fn kernel_distances() {
    assert_eq!(kernel_distance_sq(9, 4 * 9 + 4), 0);
    assert_eq!(kernel_distance_sq(9, 0), 32);
    assert_eq!(kernel_distance_sq(9, 4 * 9 + 5), 1);
    assert_eq!(kernel_distance_sq(9, 3 * 9 + 5), 2);
    for i in 0..81 {
        if i != 40 {
            assert!(kernel_distance_sq(9, i) > 0);
        }
    }
}
