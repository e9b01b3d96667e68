use falling_rust::cells::CellType;
use falling_rust::render::{canvas_size, cell_rect, cell_type_to_colour, pixel_to_cell, PixelRect};

#[test]
fn every_material_has_its_colour() {
    let expected = [
        (CellType::Empty, "#FFFFFF"),
        (CellType::Rock, "#000000"),
        (CellType::Wood, "#606040"),
        (CellType::Sand, "#886611"),
        (CellType::Gunpowder, "#666666"),
        (CellType::Water, "#0000FF"),
        (CellType::Oil, "#007777"),
        (CellType::Propane, "#77FFFF"),
        (CellType::Fire, "#FF3300"),
        (CellType::Lava, "#993300"),
        (CellType::Acid, "#009966"),
    ];
    for (kind, colour) in expected {
        assert_eq!(cell_type_to_colour(kind), colour);
    }
}

#[test]
fn a_cell_covers_three_by_three_pixels() {
    assert_eq!(cell_rect(0, 0), PixelRect { left: 0, top: 0, width: 3, height: 3 });
    assert_eq!(cell_rect(5, 2), PixelRect { left: 15, top: 6, width: 3, height: 3 });
    assert_eq!(cell_rect(1023, 639), PixelRect { left: 3069, top: 1917, width: 3, height: 3 });
    assert_eq!(
        cell_rect(u32::MAX, u32::MAX),
        PixelRect { left: 12_884_901_885, top: 12_884_901_885, width: 3, height: 3 }
    );
}

#[test]
fn the_canvas_is_three_times_the_space() {
    assert_eq!(canvas_size(1024, 640), Some((3072, 1920)));
    assert_eq!(canvas_size(0, 0), Some((0, 0)));
    assert_eq!(canvas_size(1_431_655_765, 1), Some((u32::MAX, 3)));
    assert_eq!(canvas_size(1_431_655_766, 1), None);
    assert_eq!(canvas_size(1, 1_431_655_766), None);
    assert_eq!(canvas_size(u32::MAX, u32::MAX), None);
}

#[test]
fn a_pixel_lies_in_the_cell_a_third_of_the_way() {
    assert_eq!(pixel_to_cell(0, 0), (0, 0));
    assert_eq!(pixel_to_cell(2, 3), (0, 1));
    assert_eq!(pixel_to_cell(3071, 1919), (1023, 639));
    assert_eq!(pixel_to_cell(i32::MAX, i32::MAX), (715_827_882, 715_827_882));
    // Off the canvas to the left or above, the quotient is rounded towards it.
    assert_eq!(pixel_to_cell(-1, -2), (0, 0));
    assert_eq!(pixel_to_cell(-3, -7), (-1, -2));
    assert_eq!(pixel_to_cell(i32::MIN, i32::MIN), (-715_827_882, -715_827_882));
}
