use falling_rust::cells::{Cell, CellType};
use falling_rust::random::RandomSource;
use falling_rust::space::Space;
use falling_rust::swapping::{random_modifier, SwappingSim};

const LOW: u32 = 0;
const HIGH: u32 = 0xffff_ffff;

fn set(space: &mut Space, x: u32, y: u32, kind: CellType, temp: i32) {
    let i = space.get_index(x, y);
    *space.get_cell_at(i) = Cell { cell_type: kind, generation: space.get_generation(), temp };
}

fn cell(space: &Space, x: u32, y: u32) -> Cell {
    space.cell_at(space.get_index(x, y))
}

fn count(space: &Space, kind: CellType) -> usize {
    let mut n = 0;
    for y in 0..space.get_height() {
        for x in 0..space.get_width() {
            if space.get_cell_type(x, y) == kind {
                n += 1;
            }
        }
    }
    n
}

#[test]
fn only_a_denser_material_displaces() {
    let kinds = [
        CellType::Empty,
        CellType::Rock,
        CellType::Wood,
        CellType::Sand,
        CellType::Gunpowder,
        CellType::Water,
        CellType::Oil,
        CellType::Propane,
        CellType::Fire,
        CellType::Lava,
        CellType::Acid,
    ];
    for a in kinds {
        for b in kinds {
            let pa = CellType::get_properties(a);
            let pb = CellType::get_properties(b);
            assert_eq!(SwappingSim::check_density(&pa, &pb), pa.density > pb.density);
        }
    }
    let water = CellType::get_properties(CellType::Water);
    let oil = CellType::get_properties(CellType::Oil);
    let sand = CellType::get_properties(CellType::Sand);
    let rock = CellType::get_properties(CellType::Rock);
    assert!(SwappingSim::check_density(&water, &oil));
    assert!(!SwappingSim::check_density(&oil, &water));
    assert!(!SwappingSim::check_density(&sand, &rock));
    assert!(SwappingSim::check_density(&sand, &CellType::get_properties(CellType::Empty)));
}

#[test]
fn the_first_admissible_place_wins() {
    let mut sim = SwappingSim;
    let mut space = Space::new(3, 3);
    set(&mut space, 1, 1, CellType::Sand, 20);
    set(&mut space, 1, 2, CellType::Rock, 20);
    set(&mut space, 0, 2, CellType::Water, 20);
    let i = space.get_index(1, 1);
    // Off the space, then blocked by Rock, then Water, then Empty.
    sim.check_swap_from_list(&mut space, i, vec![(1, 3), (-1, 1), (1, 2), (0, 2), (2, 2)]);
    assert_eq!(space.get_cell_type(0, 2), CellType::Sand);
    assert_eq!(space.get_cell_type(1, 1), CellType::Water);
    assert_eq!(space.get_cell_type(2, 2), CellType::Empty);
    assert_eq!(space.get_cell_type(1, 2), CellType::Rock);
}

#[test]
fn a_cell_without_a_place_to_go_stays() {
    let mut sim = SwappingSim;
    let mut space = Space::new(2, 2);
    set(&mut space, 0, 0, CellType::Oil, 20);
    set(&mut space, 1, 0, CellType::Water, 20);
    let i = space.get_index(0, 0);
    sim.check_swap_from_list(&mut space, i, vec![(1, 0), (-1, 0), (0, -1), (2, 2)]);
    assert_eq!(space.get_cell_type(0, 0), CellType::Oil);
    assert_eq!(space.get_cell_type(1, 0), CellType::Water);
    sim.check_swap_from_list(&mut space, i, Vec::new());
    assert_eq!(space.get_cell_type(0, 0), CellType::Oil);
}

#[test]
fn sand_slides_to_the_side_that_the_draw_picks() {
    for (draw, landed) in [(LOW, 0u32), (HIGH, 2u32)] {
        let mut sim = SwappingSim;
        let mut space = Space::new(3, 2);
        set(&mut space, 1, 0, CellType::Sand, 20);
        set(&mut space, 1, 1, CellType::Rock, 20);
        let mut rng = RandomSource::new(vec![draw]);
        sim.move_granular(&mut space, 1, 0, &mut rng);
        assert_eq!(space.get_cell_type(landed, 1), CellType::Sand);
        assert_eq!(space.get_cell_type(1, 0), CellType::Empty);
        assert_eq!(count(&space, CellType::Sand), 1);
    }
}

#[test]
fn sand_does_not_flow_level() {
    let mut sim = SwappingSim;
    let mut space = Space::new(3, 1);
    set(&mut space, 1, 0, CellType::Sand, 20);
    let mut rng = RandomSource::new(vec![LOW, HIGH]);
    sim.move_granular(&mut space, 1, 0, &mut rng);
    sim.move_granular(&mut space, 1, 0, &mut rng);
    assert_eq!(space.get_cell_type(1, 0), CellType::Sand);
}

#[test]
fn water_flows_level_when_it_cannot_fall() {
    for (draw, landed) in [(LOW, 0u32), (HIGH, 2u32)] {
        let mut sim = SwappingSim;
        let mut space = Space::new(3, 1);
        set(&mut space, 1, 0, CellType::Water, 20);
        let mut rng = RandomSource::new(vec![draw]);
        sim.move_liquid(&mut space, 1, 0, &mut rng);
        assert_eq!(space.get_cell_type(landed, 0), CellType::Water);
        assert_eq!(space.get_cell_type(1, 0), CellType::Empty);
    }
}

#[test]
fn water_tries_the_other_side_too() {
    let mut sim = SwappingSim;
    let mut space = Space::new(3, 2);
    set(&mut space, 1, 0, CellType::Water, 20);
    set(&mut space, 0, 0, CellType::Rock, 20);
    set(&mut space, 0, 1, CellType::Rock, 20);
    set(&mut space, 1, 1, CellType::Rock, 20);
    // The draw prefers the left, which is blocked: the water goes down right.
    let mut rng = RandomSource::new(vec![LOW]);
    sim.move_liquid(&mut space, 1, 0, &mut rng);
    assert_eq!(space.get_cell_type(2, 1), CellType::Water);
    assert_eq!(space.get_cell_type(1, 0), CellType::Empty);
}

#[test]
fn gas_drifts_where_two_draws_point() {
    // Thirds of the unit interval: +1, -1, 0.
    let plus = 0u32;
    let minus = 0x6000_0000u32;
    let zero = 0xc000_0000u32;
    for (dx, dy, x, y) in [
        (plus, plus, 2u32, 2u32),
        (minus, minus, 0, 0),
        (plus, minus, 2, 0),
        (minus, plus, 0, 2),
        (zero, minus, 1, 0),
        (zero, plus, 1, 2),
        (plus, zero, 2, 1),
        (zero, zero, 1, 1),
    ] {
        let mut sim = SwappingSim;
        let mut space = Space::new(3, 3);
        set(&mut space, 1, 1, CellType::Propane, 20);
        let mut rng = RandomSource::new(vec![dx, dy]);
        sim.move_gas(&mut space, 1, 1, &mut rng);
        assert_eq!(space.get_cell_type(x, y), CellType::Propane);
        assert_eq!(count(&space, CellType::Propane), 1);
    }
}

#[test]
fn gas_does_not_displace_what_is_denser() {
    let mut sim = SwappingSim;
    let mut space = Space::new(1, 2);
    set(&mut space, 0, 1, CellType::Propane, 20);
    set(&mut space, 0, 0, CellType::Water, 20);
    let mut rng = RandomSource::new(vec![0xc000_0000, 0x6000_0000]);
    sim.move_gas(&mut space, 0, 1, &mut rng);
    assert_eq!(space.get_cell_type(0, 1), CellType::Propane);
    assert_eq!(space.get_cell_type(0, 0), CellType::Water);
}

#[test]
fn neighbours_are_scanned_column_by_column() {
    let mut sim = SwappingSim;
    let space = Space::new(3, 3);
    assert_eq!(sim.foreach_neighbour(&space, 1, 1), vec![0, 3, 6, 1, 7, 2, 5, 8]);
    assert_eq!(sim.foreach_neighbour(&space, 0, 0), vec![3, 1, 4]);
    assert_eq!(sim.foreach_neighbour(&space, 2, 2), vec![4, 7, 5]);
    assert_eq!(sim.foreach_neighbour(&space, 2, 0), vec![1, 4, 5]);
    assert_eq!(sim.foreach_neighbour(&space, 1, 0), vec![0, 3, 4, 2, 5]);
    let column = Space::new(1, 3);
    assert_eq!(sim.foreach_neighbour(&column, 0, 1), vec![0, 2]);
    let single = Space::new(1, 1);
    assert_eq!(sim.foreach_neighbour(&single, 0, 0), Vec::<usize>::new());
}

#[test]
fn a_flame_ignites_what_burns_on_a_hit() {
    let mut sim = SwappingSim;
    let mut space = Space::new(3, 3);
    set(&mut space, 1, 1, CellType::Fire, 500);
    set(&mut space, 0, 0, CellType::Wood, 20);
    set(&mut space, 1, 0, CellType::Rock, 20);
    set(&mut space, 2, 2, CellType::Oil, 20);
    // Wood: hit, at temperature 250. Oil: miss.
    let mut rng = RandomSource::new(vec![LOW, 0x4000_0000, HIGH, 123]);
    sim.ignite_neighbours(&mut space, 1, 1, &mut rng);
    assert_eq!(cell(&space, 0, 0), Cell { cell_type: CellType::Fire, generation: 0, temp: 250 });
    assert_eq!(cell(&space, 2, 2).cell_type, CellType::Oil);
    assert_eq!(cell(&space, 1, 0).cell_type, CellType::Rock);
    // Rock and Empty took no draw.
    assert_eq!(rng.next_u32(), 123);
}

#[test]
fn acid_dissolves_on_a_rare_hit() {
    let mut sim = SwappingSim;
    let mut space = Space::new(3, 3);
    set(&mut space, 1, 1, CellType::Acid, 20);
    set(&mut space, 0, 1, CellType::Sand, 44);
    set(&mut space, 1, 2, CellType::Rock, 20);
    set(&mut space, 2, 1, CellType::Water, 20);
    // Sand: draw just under five thousandths. Rock: draw just over.
    let mut rng = RandomSource::new(vec![21_474_836, 21_474_837, 9]);
    let spent = sim.dissolve_neighbours(&mut space, 1, 1, &mut rng);
    assert!(spent);
    assert_eq!(cell(&space, 0, 1), Cell { cell_type: CellType::Empty, generation: 0, temp: 20 });
    assert_eq!(cell(&space, 1, 2).cell_type, CellType::Rock);
    assert_eq!(cell(&space, 2, 1).cell_type, CellType::Water);
    assert_eq!(rng.next_u32(), 9);
}

#[test]
fn acid_that_dissolved_is_used_up() {
    let mut sim = SwappingSim;
    let mut space = Space::new(1, 2);
    set(&mut space, 0, 0, CellType::Acid, 20);
    set(&mut space, 0, 1, CellType::Rock, 20);
    let mut rng = RandomSource::new(vec![LOW]);
    sim.simulate_cell(&mut space, 0, 0, &mut rng);
    assert_eq!(cell(&space, 0, 0).cell_type, CellType::Empty);
    assert_eq!(cell(&space, 0, 1).cell_type, CellType::Empty);
}

#[test]
fn acid_that_dissolved_nothing_flows() {
    let mut sim = SwappingSim;
    let mut space = Space::new(2, 2);
    set(&mut space, 0, 0, CellType::Acid, 20);
    set(&mut space, 0, 1, CellType::Rock, 20);
    // Miss on the Rock, then the side: right.
    let mut rng = RandomSource::new(vec![HIGH, HIGH]);
    sim.simulate_cell(&mut space, 0, 0, &mut rng);
    assert_eq!(cell(&space, 0, 0).cell_type, CellType::Empty);
    assert_eq!(cell(&space, 0, 1).cell_type, CellType::Rock);
    assert_eq!(cell(&space, 1, 1).cell_type, CellType::Acid);
}

#[test]
fn cooling_stops_at_the_lowest_temperature() {
    assert_eq!(SwappingSim::cool(100, 0), 100);
    assert_eq!(SwappingSim::cool(100, 4), 96);
    assert_eq!(SwappingSim::cool(-7, 3), -10);
    assert_eq!(SwappingSim::cool(i32::MIN, 4), i32::MIN);
    assert_eq!(SwappingSim::cool(i32::MIN + 1, 4), i32::MIN);
    assert_eq!(SwappingSim::cool(i32::MAX, 1), i32::MAX - 1);
}

#[test]
fn lava_cools_and_flows() {
    let mut sim = SwappingSim;
    let mut space = Space::new(1, 2);
    set(&mut space, 0, 0, CellType::Lava, 1500);
    // Cools by 3, then the side.
    let mut rng = RandomSource::new(vec![0xc000_0000, LOW]);
    sim.simulate_cell(&mut space, 0, 0, &mut rng);
    assert_eq!(cell(&space, 0, 1), Cell { cell_type: CellType::Lava, generation: 0, temp: 1497 });
    assert_eq!(cell(&space, 0, 0).cell_type, CellType::Empty);
}

#[test]
fn cold_lava_sets_to_rock_for_good() {
    let mut sim = SwappingSim;
    let mut space = Space::new(3, 1);
    set(&mut space, 1, 0, CellType::Lava, 12);
    set(&mut space, 0, 0, CellType::Wood, 20);
    set(&mut space, 2, 0, CellType::Wood, 20);
    // Cools by 3 to 9: Rock. It ignites nothing any more.
    let mut rng = RandomSource::new(vec![0xc000_0000, LOW, 5]);
    sim.simulate_cell(&mut space, 1, 0, &mut rng);
    assert_eq!(cell(&space, 1, 0), Cell { cell_type: CellType::Rock, generation: 0, temp: 9 });
    assert_eq!(cell(&space, 0, 0).cell_type, CellType::Wood);
    assert_eq!(cell(&space, 2, 0).cell_type, CellType::Wood);
    assert_eq!(rng.next_u32(), 5);
    // Rock stays Rock.
    for _ in 0..20 {
        sim.simulate_cell(&mut space, 1, 0, &mut rng);
    }
    assert_eq!(cell(&space, 1, 0), Cell { cell_type: CellType::Rock, generation: 0, temp: 9 });
}

#[test]
fn lava_at_the_threshold_stays_molten() {
    let mut sim = SwappingSim;
    let mut space = Space::new(1, 1);
    set(&mut space, 0, 0, CellType::Lava, 13);
    let mut rng = RandomSource::new(vec![0xc000_0000, LOW]);
    sim.simulate_cell(&mut space, 0, 0, &mut rng);
    assert_eq!(cell(&space, 0, 0), Cell { cell_type: CellType::Lava, generation: 0, temp: 10 });
}

#[test]
fn molten_lava_ignites_its_neighbours() {
    let mut sim = SwappingSim;
    let mut space = Space::new(2, 1);
    set(&mut space, 0, 0, CellType::Lava, 1200);
    set(&mut space, 1, 0, CellType::Gunpowder, 20);
    // No cooling; ignition hits; the flame starts at 999; the side is left.
    let mut rng = RandomSource::new(vec![LOW, LOW, HIGH, LOW]);
    sim.simulate_cell(&mut space, 0, 0, &mut rng);
    // The lava finds nothing below and nothing to its left, and displaces
    // the lighter flame to its right.
    assert_eq!(cell(&space, 1, 0), Cell { cell_type: CellType::Lava, generation: 0, temp: 1200 });
    assert_eq!(cell(&space, 0, 0), Cell { cell_type: CellType::Fire, generation: 0, temp: 999 });
}

#[test]
fn fire_cools_by_what_the_draw_says() {
    let mut sim = SwappingSim;
    let mut space = Space::new(1, 1);
    set(&mut space, 0, 0, CellType::Fire, 100);
    // Cools by 0, 1, 2, 3, 4 in turn; the flame never rises.
    let mut rng = RandomSource::new(vec![
        LOW, HIGH, 0x4000_0000, HIGH, 0x8000_0000, HIGH, 0xc000_0000, HIGH, HIGH, HIGH,
    ]);
    let mut temps = Vec::new();
    for _ in 0..5 {
        sim.simulate_cell(&mut space, 0, 0, &mut rng);
        temps.push(cell(&space, 0, 0).temp);
    }
    assert_eq!(temps, vec![100, 99, 97, 94, 90]);
    assert_eq!(cell(&space, 0, 0).cell_type, CellType::Fire);
}

#[test]
fn cold_fire_goes_out_at_temperature_zero() {
    let mut sim = SwappingSim;
    let mut space = Space::new(3, 3);
    set(&mut space, 1, 1, CellType::Fire, 12);
    set(&mut space, 0, 0, CellType::Wood, 20);
    // Cools by 3 to 9: out. No ignition; the draw for rising misses.
    let mut rng = RandomSource::new(vec![0xc000_0000, HIGH, 77]);
    sim.simulate_cell(&mut space, 1, 1, &mut rng);
    assert_eq!(cell(&space, 1, 1), Cell { cell_type: CellType::Empty, generation: 0, temp: 0 });
    assert_eq!(cell(&space, 0, 0).cell_type, CellType::Wood);
    assert_eq!(rng.next_u32(), 77);
}

#[test]
fn fire_at_the_threshold_keeps_burning() {
    let mut sim = SwappingSim;
    let mut space = Space::new(1, 1);
    set(&mut space, 0, 0, CellType::Fire, 10);
    let mut rng = RandomSource::new(vec![LOW, HIGH]);
    sim.simulate_cell(&mut space, 0, 0, &mut rng);
    assert_eq!(cell(&space, 0, 0), Cell { cell_type: CellType::Fire, generation: 0, temp: 10 });
}

#[test]
fn hot_fire_throws_off_a_flame() {
    let mut sim = SwappingSim;
    let mut space = Space::new(3, 3);
    space.increment_generation();
    let i = space.get_index(1, 1);
    *space.get_cell_at(i) = Cell { cell_type: CellType::Fire, generation: 0, temp: 400 };
    // Cools by 1 to 399; spawns; towards the left and down; does not rise.
    let mut rng = RandomSource::new(vec![0x4000_0000, LOW, LOW, HIGH, HIGH]);
    sim.simulate_cell(&mut space, 1, 1, &mut rng);
    assert_eq!(cell(&space, 1, 1), Cell { cell_type: CellType::Fire, generation: 0, temp: 239 });
    assert_eq!(cell(&space, 0, 2), Cell { cell_type: CellType::Fire, generation: 1, temp: 239 });
    assert_eq!(count(&space, CellType::Fire), 2);
}

#[test]
fn a_new_flame_takes_the_first_empty_diagonal() {
    let mut sim = SwappingSim;
    let mut space = Space::new(3, 3);
    set(&mut space, 1, 1, CellType::Fire, 350);
    set(&mut space, 2, 2, CellType::Rock, 20);
    set(&mut space, 0, 2, CellType::Rock, 20);
    let flame = Cell { cell_type: CellType::Fire, generation: 0, temp: 210 };
    // Towards the right and down: (2,2) and (0,2) are taken, (2,0) is free.
    let mut rng = RandomSource::new(vec![HIGH, HIGH]);
    sim.spawn_new(&mut space, 1, 1, flame, &mut rng);
    assert_eq!(cell(&space, 2, 0), flame);
    assert_eq!(cell(&space, 0, 0).cell_type, CellType::Empty);
    assert_eq!(count(&space, CellType::Fire), 2);
}

#[test]
fn a_new_flame_needs_an_empty_diagonal() {
    let mut sim = SwappingSim;
    let mut space = Space::new(1, 1);
    set(&mut space, 0, 0, CellType::Fire, 350);
    let flame = Cell { cell_type: CellType::Fire, generation: 0, temp: 210 };
    let mut rng = RandomSource::new(vec![HIGH, LOW]);
    sim.spawn_new(&mut space, 0, 0, flame, &mut rng);
    assert_eq!(count(&space, CellType::Fire), 1);
}

#[test]
fn fire_at_the_spawn_threshold_does_not_flare() {
    let mut sim = SwappingSim;
    let mut space = Space::new(3, 3);
    set(&mut space, 1, 1, CellType::Fire, 300);
    // No cooling; at 300 no draw for a new flame; the next draw is for rising.
    let mut rng = RandomSource::new(vec![LOW, HIGH, 42]);
    sim.simulate_cell(&mut space, 1, 1, &mut rng);
    assert_eq!(cell(&space, 1, 1), Cell { cell_type: CellType::Fire, generation: 0, temp: 300 });
    assert_eq!(count(&space, CellType::Fire), 1);
    assert_eq!(rng.next_u32(), 42);
}

#[test]
fn fire_may_rise_like_a_gas() {
    let mut sim = SwappingSim;
    let mut space = Space::new(3, 3);
    set(&mut space, 1, 1, CellType::Fire, 100);
    // No cooling; rises; one step up.
    let mut rng = RandomSource::new(vec![LOW, LOW, 0xc000_0000, 0x6000_0000]);
    sim.simulate_cell(&mut space, 1, 1, &mut rng);
    assert_eq!(cell(&space, 1, 0), Cell { cell_type: CellType::Fire, generation: 0, temp: 100 });
    assert_eq!(cell(&space, 1, 1).cell_type, CellType::Empty);
}

#[test]
fn rock_wood_and_empty_do_nothing() {
    let mut sim = SwappingSim;
    for kind in [CellType::Rock, CellType::Wood, CellType::Empty] {
        let mut space = Space::new(3, 3);
        set(&mut space, 1, 0, kind, 20);
        let mut rng = RandomSource::new(vec![17, 18]);
        sim.simulate_cell(&mut space, 1, 0, &mut rng);
        assert_eq!(cell(&space, 1, 0), Cell { cell_type: kind, generation: 0, temp: 20 });
        assert_eq!(count(&space, CellType::Empty), if kind == CellType::Empty { 9 } else { 8 });
        assert_eq!(rng.next_u32(), 17);
    }
}

#[test]
fn a_gas_step_takes_each_value_for_a_third() {
    let mut rng = RandomSource::new(vec![
        0,
        0x5555_5555,
        0x5555_5556,
        0xaaaa_aaaa,
        0xaaaa_aaab,
        0xffff_ffff,
    ]);
    assert_eq!(random_modifier(&mut rng), 1);
    assert_eq!(random_modifier(&mut rng), 1);
    assert_eq!(random_modifier(&mut rng), -1);
    assert_eq!(random_modifier(&mut rng), -1);
    assert_eq!(random_modifier(&mut rng), 0);
    assert_eq!(random_modifier(&mut rng), 0);
}
