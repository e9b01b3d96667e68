use falling_rust::random::RandomSource;

#[test]
fn draws_are_replayed_in_a_cycle() {
    let mut rng = RandomSource::new(vec![11, 22, 33]);
    let seen: Vec<u32> = (0..7).map(|_| rng.next_u32()).collect();
    assert_eq!(seen, vec![11, 22, 33, 11, 22, 33, 11]);
}

#[test]
fn an_empty_cycle_yields_zeros() {
    let mut rng = RandomSource::new(Vec::new());
    assert_eq!(rng.next_u32(), 0);
    assert_eq!(rng.next_u32(), 0);
    assert_eq!(rng.next_below(20), 0);
    assert!(rng.next_chance(1));
    assert!(!rng.next_chance(0));
}

#[test]
fn a_draw_is_scaled_onto_a_range() {
    let mut rng = RandomSource::new(vec![0, 0x8000_0000, 0xffff_ffff, 0x4000_0000, 0xc000_0000]);
    assert_eq!(rng.next_below(20), 0);
    assert_eq!(rng.next_below(20), 10);
    assert_eq!(rng.next_below(20), 19);
    assert_eq!(rng.next_below(5), 1);
    assert_eq!(rng.next_below(5), 3);
    // Second round of the cycle.
    assert_eq!(rng.next_below(1000), 0);
    assert_eq!(rng.next_below(1000), 500);
    assert_eq!(rng.next_below(1000), 999);
    assert_eq!(rng.next_below(0), 0);
    assert_eq!(rng.next_below(1), 0);
}

#[test]
fn a_chance_is_a_share_of_the_unit_interval() {
    let mut rng = RandomSource::new(vec![0x7fff_ffff, 0x8000_0000, 21_474_836, 21_474_837, 0xffff_ffff, 0]);
    assert!(rng.next_chance(500));
    assert!(!rng.next_chance(500));
    assert!(rng.next_chance(5));
    assert!(!rng.next_chance(5));
    assert!(rng.next_chance(1000));
    assert!(!rng.next_chance(0));
}

#[test]
fn a_side_is_left_for_the_lower_half() {
    let mut rng = RandomSource::new(vec![0, 0x7fff_ffff, 0x8000_0000, 0xffff_ffff]);
    assert_eq!(rng.next_side(), -1);
    assert_eq!(rng.next_side(), -1);
    assert_eq!(rng.next_side(), 1);
    assert_eq!(rng.next_side(), 1);
}
