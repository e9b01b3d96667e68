//! What the front end needs to draw the space and to read the pointer: the
//! colour of each material, and the mapping between cells and pixels.
use crate::cells::CellType;
use crate::{CELL_HEIGHT, CELL_WIDTH};
use vstd::prelude::*;

verus! {

/// The colour in which each material is drawn, as a hexadecimal RGB triple.
pub open spec fn colour_of(kind: CellType) -> &'static str {
    match kind {
        CellType::Empty => "#FFFFFF",
        CellType::Rock => "#000000",
        CellType::Wood => "#606040",
        CellType::Sand => "#886611",
        CellType::Gunpowder => "#666666",
        CellType::Water => "#0000FF",
        CellType::Oil => "#007777",
        CellType::Propane => "#77FFFF",
        CellType::Fire => "#FF3300",
        CellType::Lava => "#993300",
        CellType::Acid => "#009966",
    }
}

/// The colour in which a material is drawn.
pub fn cell_type_to_colour(cell_type: CellType) -> (colour: &'static str)
    ensures
        colour == colour_of(cell_type),
{
    match cell_type {
        CellType::Empty => "#FFFFFF",
        CellType::Rock => "#000000",
        CellType::Wood => "#606040",
        CellType::Sand => "#886611",
        CellType::Gunpowder => "#666666",
        CellType::Water => "#0000FF",
        CellType::Oil => "#007777",
        CellType::Propane => "#77FFFF",
        CellType::Fire => "#FF3300",
        CellType::Lava => "#993300",
        CellType::Acid => "#009966",
    }
}

/// The rectangle of pixels that a cell covers on the canvas.
#[derive(Copy, Clone, Debug, PartialEq, Eq, Structural)]
pub struct PixelRect {
    pub left: u64,
    pub top: u64,
    pub width: u32,
    pub height: u32,
}

/// The rectangle of pixels that the cell at `(x, y)` covers.
pub fn cell_rect(x: u32, y: u32) -> (rect: PixelRect)
    ensures
        rect == (PixelRect {
            left: (x * CELL_WIDTH) as u64,
            top: (y * CELL_HEIGHT) as u64,
            width: CELL_WIDTH,
            height: CELL_HEIGHT,
        }),
{
    PixelRect {
        left: x as u64 * CELL_WIDTH as u64,
        top: y as u64 * CELL_HEIGHT as u64,
        width: CELL_WIDTH,
        height: CELL_HEIGHT,
    }
}

/// The size in pixels of a canvas that shows a space of `width` by `height`
/// cells, or `None` where a side would not fit 32 bits.
pub fn canvas_size(width: u32, height: u32) -> (size: Option<(u32, u32)>)
    ensures
        size == if width * CELL_WIDTH <= u32::MAX && height * CELL_HEIGHT <= u32::MAX {
            Some(((width * CELL_WIDTH) as u32, (height * CELL_HEIGHT) as u32))
        } else {
            None
        },
{
    let across: u64 = width as u64 * CELL_WIDTH as u64;
    let down: u64 = height as u64 * CELL_HEIGHT as u64;
    if across <= 0xffff_ffff && down <= 0xffff_ffff {
        Some((across as u32, down as u32))
    } else {
        None
    }
}

/// The distance in cells of a pixel at distance `pixels` from the edge of the
/// canvas, for cells of `size` pixels: the quotient, rounded towards the
/// edge.
pub open spec fn cells_from_edge(pixels: int, size: int) -> int {
    if pixels >= 0 {
        pixels / size
    } else {
        -((-pixels) / size)
    }
}

/// The cell under the pixel `(px, py)` of the canvas.
pub fn pixel_to_cell(px: i32, py: i32) -> (cell: (i32, i32))
    ensures
        cell.0 == cells_from_edge(px as int, CELL_WIDTH as int),
        cell.1 == cells_from_edge(py as int, CELL_HEIGHT as int),
{
    (px / CELL_WIDTH as i32, py / CELL_HEIGHT as i32)
}

} // verus!
