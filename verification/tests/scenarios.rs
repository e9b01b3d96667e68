use falling_rust::cells::{Cell, CellType};
use falling_rust::random::RandomSource;
use falling_rust::simulator::Simulator;
use falling_rust::space::Space;
use falling_rust::swapping::SwappingSim;

fn put(space: &mut Space, x: u32, y: u32, kind: CellType) {
    let i = space.get_index(x, y);
    let cell = Cell { cell_type: kind, generation: space.get_generation(), temp: 20 };
    *space.get_cell_at(i) = cell;
}

fn kinds(space: &Space) -> Vec<CellType> {
    let mut all = Vec::new();
    for y in 0..space.get_height() {
        for x in 0..space.get_width() {
            all.push(space.get_cell_type(x, y));
        }
    }
    all
}

#[test]
fn sand_falls_one_row_onto_rock() {
    let mut space = Space::new(3, 3);
    put(&mut space, 1, 0, CellType::Sand);
    put(&mut space, 1, 2, CellType::Rock);
    let mut rng = RandomSource::new(vec![0]);
    let mut sim = SwappingSim;
    sim.tick(&mut space, &mut rng);
    assert_eq!(space.get_cell_type(1, 1), CellType::Sand);
    assert_eq!(space.get_cell_type(1, 0), CellType::Empty);
    assert_eq!(space.get_cell_type(1, 2), CellType::Rock);
    assert_eq!(space.get_generation(), 1);
}

#[test]
fn sand_rests_on_a_rock_floor() {
    let mut space = Space::new(3, 3);
    put(&mut space, 1, 0, CellType::Sand);
    put(&mut space, 0, 2, CellType::Rock);
    put(&mut space, 1, 2, CellType::Rock);
    put(&mut space, 2, 2, CellType::Rock);
    let mut rng = RandomSource::new(vec![0, 0xffff_ffff]);
    let mut sim = SwappingSim;
    sim.tick(&mut space, &mut rng);
    assert_eq!(space.get_cell_type(1, 1), CellType::Sand);
    sim.tick(&mut space, &mut rng);
    assert_eq!(space.get_cell_type(1, 1), CellType::Sand);
    sim.tick(&mut space, &mut rng);
    assert_eq!(space.get_cell_type(1, 1), CellType::Sand);
    assert_eq!(
        kinds(&space),
        vec![
            CellType::Empty, CellType::Empty, CellType::Empty,
            CellType::Empty, CellType::Sand, CellType::Empty,
            CellType::Rock, CellType::Rock, CellType::Rock,
        ]
    );
}

#[test]
fn sand_slides_off_a_single_rock() {
    let mut space = Space::new(3, 3);
    put(&mut space, 1, 0, CellType::Sand);
    put(&mut space, 1, 2, CellType::Rock);
    // Every draw is in the lower half of the unit interval: the side is left.
    let mut rng = RandomSource::new(vec![0]);
    let mut sim = SwappingSim;
    sim.tick(&mut space, &mut rng);
    assert_eq!(space.get_cell_type(1, 1), CellType::Sand);
    sim.tick(&mut space, &mut rng);
    assert_eq!(space.get_cell_type(1, 1), CellType::Empty);
    assert_eq!(space.get_cell_type(0, 2), CellType::Sand);
    assert_eq!(space.get_cell_type(1, 2), CellType::Rock);
}

#[test]
fn water_sinks_below_oil() {
    let mut space = Space::new(1, 2);
    put(&mut space, 0, 0, CellType::Water);
    put(&mut space, 0, 1, CellType::Oil);
    let mut rng = RandomSource::new(vec![7, 0x9000_0000, 3]);
    let mut sim = SwappingSim;
    sim.tick(&mut space, &mut rng);
    assert_eq!(space.get_cell_type(0, 0), CellType::Oil);
    assert_eq!(space.get_cell_type(0, 1), CellType::Water);
}
