use falling_rust::cells::{Cell, CellType};
use falling_rust::random::RandomSource;
use falling_rust::simulator::{Simulator, Strategy};
use falling_rust::space::Space;
use falling_rust::swapping::SwappingSim;

const LOW: u32 = 0;
const HIGH: u32 = 0xffff_ffff;

fn set(space: &mut Space, x: u32, y: u32, kind: CellType, temp: i32) {
    let i = space.get_index(x, y);
    *space.get_cell_at(i) = Cell { cell_type: kind, generation: space.get_generation(), temp };
}

fn cells(space: &Space) -> Vec<Cell> {
    let n = (space.get_width() * space.get_height()) as usize;
    (0..n).map(|i| space.cell_at(i)).collect()
}

fn kinds(space: &Space) -> Vec<CellType> {
    cells(space).iter().map(|c| c.cell_type).collect()
}

fn count(space: &Space, kind: CellType) -> usize {
    kinds(space).iter().filter(|k| **k == kind).count()
}

// A small generator for varied draws, fixed by its seed.
fn varied_draws(seed: u64, n: usize) -> Vec<u32> {
    let mut state = seed;
    (0..n)
        .map(|_| {
            state = state.wrapping_mul(6364136223846793005).wrapping_add(1442695040888963407);
            (state >> 32) as u32
        })
        .collect()
}

fn mixed_space(seed: u64) -> Space {
    let palette = CellType::iter();
    let mut space = Space::new(9, 7);
    let picks = varied_draws(seed, 63);
    for y in 0..7 {
        for x in 0..9 {
            let pick = picks[(x + 9 * y) as usize] % 16;
            if pick < 10 {
                let kind = palette[pick as usize];
                let temp = match kind {
                    CellType::Fire => 600,
                    CellType::Lava => 1500,
                    _ => 20,
                };
                set(&mut space, x, y, kind, temp);
            }
        }
    }
    space
}

#[test]
fn a_tick_advances_the_generation_by_one() {
    let mut space = Space::new(3, 2);
    let mut rng = RandomSource::new(vec![5]);
    let mut sim = SwappingSim;
    sim.advance(&mut space, &mut rng);
    assert_eq!(space.get_generation(), 1);
    sim.tick(&mut space, &mut rng);
    assert_eq!(space.get_generation(), 2);
    assert_eq!(space.get_width(), 3);
    assert_eq!(space.get_height(), 2);
}

#[test]
fn every_cell_is_stamped_after_a_tick() {
    for seed in 1..6u64 {
        let mut space = mixed_space(seed);
        let mut rng = RandomSource::new(varied_draws(seed + 100, 997));
        let mut sim = SwappingSim;
        for tick in 1..=40u32 {
            sim.tick(&mut space, &mut rng);
            assert_eq!(space.get_generation() as u32, tick);
            for i in 0..63 {
                assert!(!space.cell_needs_updating(i));
                assert_eq!(space.cell_at(i).generation as u32, tick);
            }
        }
    }
}

#[test]
fn stamps_hold_across_the_wrap_of_the_generation() {
    let mut space = mixed_space(3);
    let mut rng = RandomSource::new(varied_draws(8, 499));
    let mut sim = SwappingSim;
    for _ in 0..300 {
        sim.tick(&mut space, &mut rng);
        for i in 0..63 {
            assert!(!space.cell_needs_updating(i));
        }
    }
    assert_eq!(space.get_generation(), 44);
}

#[test]
fn rock_and_empty_stay_as_they_are() {
    let mut space = Space::new(6, 5);
    for (x, y) in [(0, 0), (3, 0), (5, 1), (2, 2), (2, 3), (0, 4), (5, 4), (4, 2)] {
        set(&mut space, x, y, CellType::Rock, 20 + x as i32);
    }
    let before = cells(&space);
    let mut rng = RandomSource::new(vec![1, 2, 3]);
    let mut sim = SwappingSim;
    for tick in 1..=300u32 {
        sim.tick(&mut space, &mut rng);
        let after = cells(&space);
        for i in 0..30 {
            assert_eq!(after[i].cell_type, before[i].cell_type);
            assert_eq!(after[i].temp, before[i].temp);
            assert_eq!(after[i].generation as u32, tick % 256);
        }
    }
    // No draw was taken.
    assert_eq!(rng.next_u32(), 1);
}

#[test]
fn sand_falls_one_row_per_tick() {
    let mut space = Space::new(1, 6);
    set(&mut space, 0, 0, CellType::Sand, 20);
    let mut rng = RandomSource::new(vec![LOW, HIGH, HIGH]);
    let mut sim = SwappingSim;
    for tick in 1..=5u32 {
        sim.tick(&mut space, &mut rng);
        assert_eq!(space.get_cell_type(0, tick), CellType::Sand);
        assert_eq!(count(&space, CellType::Sand), 1);
    }
    sim.tick(&mut space, &mut rng);
    assert_eq!(space.get_cell_type(0, 5), CellType::Sand);
}

#[test]
fn water_that_flowed_ahead_of_the_sweep_does_not_flow_again() {
    // Row 0 is swept from left to right. The water flows right, into a slot
    // that the sweep comes to next, and must rest there.
    let mut space = Space::new(5, 1);
    set(&mut space, 0, 0, CellType::Water, 20);
    let mut rng = RandomSource::new(vec![HIGH]);
    let mut sim = SwappingSim;
    for tick in 1..=4u32 {
        sim.tick(&mut space, &mut rng);
        assert_eq!(space.get_cell_type(tick, 0), CellType::Water);
        assert_eq!(count(&space, CellType::Water), 1);
    }
}

#[test]
fn gas_that_rose_ahead_of_the_sweep_does_not_rise_again() {
    // Rows are swept from the bottom up. The gas goes straight up, into a
    // row that the sweep comes to next, and must rest there.
    let mut space = Space::new(1, 5);
    set(&mut space, 0, 4, CellType::Propane, 20);
    let mut rng = RandomSource::new(vec![0xc000_0000, 0x6000_0000]);
    let mut sim = SwappingSim;
    for tick in 1..=4u32 {
        sim.tick(&mut space, &mut rng);
        assert_eq!(space.get_cell_type(0, 4 - tick), CellType::Propane);
        assert_eq!(count(&space, CellType::Propane), 1);
    }
}

#[test]
fn odd_rows_are_swept_from_the_right() {
    // Two drops of water side by side, both preferring the right. In an even
    // row the left one is handled first and is blocked by the other; in an
    // odd row the right one is handled first and makes room.
    let mut even = Space::new(4, 1);
    set(&mut even, 0, 0, CellType::Water, 20);
    set(&mut even, 1, 0, CellType::Water, 20);
    let mut rng = RandomSource::new(vec![HIGH]);
    let mut sim = SwappingSim;
    sim.tick(&mut even, &mut rng);
    assert_eq!(
        kinds(&even),
        vec![CellType::Water, CellType::Empty, CellType::Water, CellType::Empty]
    );

    let mut odd = Space::new(4, 2);
    for x in 0..4 {
        set(&mut odd, x, 0, CellType::Rock, 20);
    }
    set(&mut odd, 0, 1, CellType::Water, 20);
    set(&mut odd, 1, 1, CellType::Water, 20);
    sim.tick(&mut odd, &mut rng);
    assert_eq!(
        kinds(&odd)[4..].to_vec(),
        vec![CellType::Empty, CellType::Water, CellType::Water, CellType::Empty]
    );
}

#[test]
fn a_denser_material_sinks_below_a_lighter_one() {
    let sinking = [
        CellType::Sand,
        CellType::Gunpowder,
        CellType::Water,
        CellType::Oil,
        CellType::Acid,
    ];
    let resting = [
        CellType::Empty,
        CellType::Water,
        CellType::Oil,
        CellType::Propane,
        CellType::Acid,
    ];
    let mut pairs = 0;
    for a in sinking {
        for b in resting {
            let pa = CellType::get_properties(a);
            let pb = CellType::get_properties(b);
            if pa.density <= pb.density || (b == CellType::Acid && pa.dissolvable) {
                continue;
            }
            for seed in 0..5u64 {
                let mut space = Space::new(1, 4);
                set(&mut space, 0, 2, a, 31);
                set(&mut space, 0, 3, b, 32);
                let mut rng = RandomSource::new(varied_draws(seed, 17));
                let mut sim = SwappingSim;
                sim.tick(&mut space, &mut rng);
                assert_eq!(space.cell_at(3), Cell { cell_type: a, generation: 1, temp: 31 });
                assert_eq!(space.cell_at(2), Cell { cell_type: b, generation: 1, temp: 32 });
                assert_eq!(space.get_cell_type(0, 0), CellType::Empty);
                assert_eq!(space.get_cell_type(0, 1), CellType::Empty);
            }
            pairs += 1;
        }
    }
    assert_eq!(pairs, 18);
}

#[test]
fn rock_does_not_sink() {
    let mut space = Space::new(1, 2);
    set(&mut space, 0, 0, CellType::Rock, 20);
    set(&mut space, 0, 1, CellType::Water, 20);
    let mut rng = RandomSource::new(varied_draws(4, 17));
    let mut sim = SwappingSim;
    for _ in 0..10 {
        sim.tick(&mut space, &mut rng);
    }
    assert_eq!(kinds(&space), vec![CellType::Rock, CellType::Water]);
}

#[test]
fn in_a_wide_space_the_lighter_material_flows_away_first() {
    let mut space = Space::new(3, 2);
    set(&mut space, 1, 0, CellType::Sand, 20);
    set(&mut space, 1, 1, CellType::Water, 20);
    let mut rng = RandomSource::new(vec![LOW]);
    let mut sim = SwappingSim;
    sim.tick(&mut space, &mut rng);
    assert_eq!(space.get_cell_type(0, 1), CellType::Water);
    assert_eq!(space.get_cell_type(1, 1), CellType::Sand);
    assert_eq!(space.get_cell_type(1, 0), CellType::Empty);
}

#[test]
fn water_is_lifted_through_a_column_of_sand_in_one_tick() {
    // Each grain falls once; the water below is displaced once by each.
    let mut space = Space::new(1, 4);
    set(&mut space, 0, 0, CellType::Sand, 20);
    set(&mut space, 0, 1, CellType::Sand, 20);
    set(&mut space, 0, 2, CellType::Sand, 20);
    set(&mut space, 0, 3, CellType::Water, 20);
    let mut rng = RandomSource::new(vec![LOW]);
    let mut sim = SwappingSim;
    sim.tick(&mut space, &mut rng);
    assert_eq!(
        kinds(&space),
        vec![CellType::Water, CellType::Sand, CellType::Sand, CellType::Sand]
    );
}

#[test]
fn a_lone_flame_burns_out() {
    for seed in 0..4u64 {
        let mut space = Space::new(7, 7);
        set(&mut space, 3, 3, CellType::Fire, 900);
        // Every draw cools by at least one unit: none in the lowest fifth.
        let draws: Vec<u32> = varied_draws(seed, 211)
            .into_iter()
            .map(|d| if d < 0x3333_3334 { d + 0x3333_3334 } else { d })
            .collect();
        let mut rng = RandomSource::new(draws);
        let mut sim = SwappingSim;
        let mut ticks = 0;
        while count(&space, CellType::Fire) > 0 {
            sim.tick(&mut space, &mut rng);
            ticks += 1;
            assert!(ticks <= 891);
        }
        assert_eq!(count(&space, CellType::Empty), 49);
        for cell in cells(&space) {
            assert!(cell.temp == 0 || cell.temp == 20);
        }
        assert!(cells(&space).iter().any(|c| c.temp == 0));
        // It stays out.
        for _ in 0..10 {
            sim.tick(&mut space, &mut rng);
        }
        assert_eq!(count(&space, CellType::Empty), 49);
    }
}

#[test]
fn a_flame_that_never_cools_keeps_burning() {
    let mut space = Space::new(1, 1);
    set(&mut space, 0, 0, CellType::Fire, 50);
    let mut rng = RandomSource::new(vec![LOW]);
    let mut sim = SwappingSim;
    for _ in 0..500 {
        sim.tick(&mut space, &mut rng);
    }
    assert_eq!(space.cell_at(0).cell_type, CellType::Fire);
    assert_eq!(space.cell_at(0).temp, 50);
}

#[test]
fn a_tick_is_a_function_of_the_grid_and_the_draws() {
    for seed in 1..4u64 {
        let mut first = mixed_space(seed);
        let mut second = mixed_space(seed);
        let mut rng1 = RandomSource::new(varied_draws(seed * 7, 313));
        let mut rng2 = RandomSource::new(varied_draws(seed * 7, 313));
        let mut sim = SwappingSim;
        let mut chosen = Strategy::Swap;
        for _ in 0..50 {
            sim.tick(&mut first, &mut rng1);
            chosen.tick(&mut second, &mut rng2);
            assert_eq!(cells(&first), cells(&second));
        }
        assert_eq!(rng1.next_u32(), rng2.next_u32());
    }
}

#[test]
fn a_tick_keeps_the_size_of_any_space() {
    for (width, height) in [(0, 0), (0, 3), (3, 0), (1, 1), (1, 5), (5, 1), (2, 3)] {
        let mut space = Space::new(width, height);
        let mut rng = RandomSource::new(varied_draws(1, 31));
        space.add(0, 0, CellType::Fire, &mut rng);
        space.add(2, 1, CellType::Propane, &mut rng);
        let mut sim = SwappingSim;
        for _ in 0..20 {
            sim.tick(&mut space, &mut rng);
        }
        assert_eq!(space.get_width(), width);
        assert_eq!(space.get_height(), height);
        assert_eq!(space.get_generation(), 20);
    }
}

#[test]
fn a_lone_cell_falls_one_row() {
    for kind in [
        CellType::Sand,
        CellType::Gunpowder,
        CellType::Water,
        CellType::Oil,
        CellType::Acid,
    ] {
        for (x, y) in [(0u32, 0u32), (4, 0), (2, 1), (3, 2), (0, 2), (4, 2)] {
            for seed in 0..3u64 {
                let mut space = Space::new(5, 4);
                set(&mut space, x, y, kind, 27);
                let mut rng = RandomSource::new(varied_draws(seed, 13));
                let mut sim = SwappingSim;
                sim.tick(&mut space, &mut rng);
                let below = space.get_index(x, y + 1);
                assert_eq!(space.cell_at(below), Cell { cell_type: kind, generation: 1, temp: 27 });
                assert_eq!(count(&space, CellType::Empty), 19);
            }
        }
    }
}
