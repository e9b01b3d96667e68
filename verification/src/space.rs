//! The grid: a row-major array of cells with a generation counter.
use crate::cells::{blank_cell, init_cell, Cell, CellType};
use crate::random::{Draws, RandomSource};
use vstd::prelude::*;

verus! {

/// Number of slots a brush stroke samples: a square of five by five.
pub const BRUSH_SLOTS: u32 = 25;

/// The mathematical state of a [`Space`].
pub struct Grid {
    pub width: nat,
    pub height: nat,
    pub generation: u8,
    /// The cells, row by row: slot `x + y * width` holds the cell at `(x, y)`.
    pub cells: Seq<Cell>,
}

/// A grid together with the random draws that are still to come: what a rule
/// reads and what it leaves behind.
pub struct Scene {
    pub grid: Grid,
    pub draws: Draws,
}

/// Pairs a grid with a source of draws.
pub open spec fn scene(grid: Grid, draws: Draws) -> Scene {
    Scene { grid, draws }
}

/// A brush stroke in progress: the scene so far and the number of slots inside
/// the grid that the stroke has sampled.
pub struct Stroke {
    pub scene: Scene,
    pub sampled: nat,
}

impl Grid {
    /// One cell per slot, and every slot reachable by signed 32-bit
    /// coordinates and a 32-bit index.
    pub open spec fn wf(self) -> bool {
        &&& self.cells.len() == self.width * self.height
        &&& self.width <= i32::MAX
        &&& self.height <= i32::MAX
        &&& self.width * self.height <= u32::MAX
    }

    /// A grid of Empty cells at generation 0.
    pub open spec fn blank(width: nat, height: nat) -> Grid {
        Grid {
            width,
            height,
            generation: 0,
            cells: Seq::new(width * height, |i: int| blank_cell()),
        }
    }

    /// Whether `(x, y)` names a slot of the grid.
    pub open spec fn contains(self, x: int, y: int) -> bool {
        0 <= x < self.width && 0 <= y < self.height
    }

    /// The slot of `(x, y)` in row-major order.
    pub open spec fn index(self, x: int, y: int) -> int {
        x + y * self.width
    }

    /// The slot of `(x, y)`, or `None` off the grid.
    pub open spec fn slot(self, x: int, y: int) -> Option<int> {
        if self.contains(x, y) {
            Some(self.index(x, y))
        } else {
            None
        }
    }

    /// The material in slot `i`.
    pub open spec fn kind_at(self, i: int) -> CellType {
        self.cells[i].cell_type
    }

    /// Whether slot `i` has not been handled in the current generation.
    pub open spec fn needs_update(self, i: int) -> bool {
        self.generation != self.cells[i].generation
    }

    /// The grid with slot `i` replaced, stamp and all.
    pub open spec fn put(self, i: int, cell: Cell) -> Grid {
        Grid { cells: self.cells.update(i, cell), ..self }
    }

    /// The cell, stamped with the current generation.
    pub open spec fn stamped(self, cell: Cell) -> Cell {
        Cell { generation: self.generation, ..cell }
    }

    /// The grid with slot `i` marked as handled in the current generation.
    pub open spec fn stamp(self, i: int) -> Grid {
        self.put(i, self.stamped(self.cells[i]))
    }

    /// The grid with slot `i` replaced by the cell, marked as handled.
    pub open spec fn overwrite(self, i: int, cell: Cell) -> Grid {
        self.put(i, self.stamped(cell))
    }

    /// The grid after the cell in slot `i` has moved to slot `j`: the two
    /// slots exchange their cells, and the cell that arrives in `j` is marked
    /// as handled. The cell that arrives in `i` keeps its stamp.
    pub open spec fn swap(self, i: int, j: int) -> Grid {
        self.put(i, self.cells[j]).put(j, self.stamped(self.cells[i]))
    }

    /// The grid at the next generation; the counter wraps.
    pub open spec fn bump(self) -> Grid {
        Grid {
            generation: if self.generation == u8::MAX {
                0
            } else {
                (self.generation + 1) as u8
            },
            ..self
        }
    }

    /// Whether the two grids have the same size and generation.
    pub open spec fn shaped_like(self, other: Grid) -> bool {
        &&& self.width == other.width
        &&& self.height == other.height
        &&& self.generation == other.generation
        &&& self.cells.len() == other.cells.len()
    }

    /// Whether every slot has been handled in the current generation.
    pub open spec fn settled(self) -> bool {
        forall|i: int| 0 <= i < self.cells.len() ==> !#[trigger] self.needs_update(i)
    }
}

/// The slot of a cell inside the grid is a valid index.
pub proof fn lemma_index_in_range(grid: Grid, x: int, y: int)
    requires
        grid.cells.len() == grid.width * grid.height,
        grid.contains(x, y),
    ensures
        0 <= grid.index(x, y) < grid.cells.len(),
        y * grid.width <= grid.index(x, y),
{
    let w = grid.width as int;
    let h = grid.height as int;
    assert(0 <= y * w && y * w + w <= w * h) by (nonlinear_arith)
        requires
            0 <= y < h,
            0 <= w,
    ;
}

/// Distinct cells of a grid have distinct slots.
pub proof fn lemma_index_injective(grid: Grid, x1: int, y1: int, x2: int, y2: int)
    requires
        grid.contains(x1, y1),
        grid.contains(x2, y2),
        grid.index(x1, y1) == grid.index(x2, y2),
    ensures
        x1 == x2,
        y1 == y2,
{
    let w = grid.width as int;
    if y1 < y2 {
        assert(y1 * w + w <= y2 * w) by (nonlinear_arith)
            requires
                y1 < y2,
                0 <= w,
        ;
    } else if y2 < y1 {
        assert(y2 * w + w <= y1 * w) by (nonlinear_arith)
            requires
                y2 < y1,
                0 <= w,
        ;
    }
}

/// The offset of the `k`-th slot that a brush stroke samples, from the centre
/// of the stroke: row by row, two cells to each side.
pub open spec fn brush_offset(k: int) -> (int, int) {
    (k % 5 - 2, k / 5 - 2)
}

/// A stroke after it has sampled one more slot, the `k`-th of the brush.
///
/// A slot off the grid is skipped. Of the slots inside the grid every second
/// one is painted, starting with the first, and only where the slot is Empty
/// or the stroke erases.
pub open spec fn brush_step(stroke: Stroke, x: int, y: int, kind: CellType, k: int) -> Stroke {
    let grid = stroke.scene.grid;
    let (dx, dy) = brush_offset(k);
    match grid.slot(x + dx, y + dy) {
        None => stroke,
        Some(i) => {
            let paints = stroke.sampled % 2 == 0 && (grid.kind_at(i) == CellType::Empty || kind
                == CellType::Empty);
            let (cell, draws) = init_cell(grid.cells[i], kind, stroke.scene.draws);
            Stroke {
                scene: if paints {
                    scene(grid.put(i, cell), draws)
                } else {
                    stroke.scene
                },
                sampled: stroke.sampled + 1,
            }
        },
    }
}

/// A stroke centred at `(x, y)` after it has sampled the first `k` slots of
/// the brush.
pub open spec fn brush(start: Scene, x: int, y: int, kind: CellType, k: nat) -> Stroke
    decreases k,
{
    if k == 0 {
        Stroke { scene: start, sampled: 0 }
    } else {
        brush_step(brush(start, x, y, kind, (k - 1) as nat), x, y, kind, k - 1)
    }
}

/// The scene after a whole brush stroke of the given material centred at
/// `(x, y)`.
pub open spec fn place(start: Scene, x: int, y: int, kind: CellType) -> Scene {
    brush(start, x, y, kind, BRUSH_SLOTS as nat).scene
}

/// The simulated space: `width * height` cells and the generation counter.
pub struct Space {
    width: u32,
    height: u32,
    generation: u8,
    cells: Vec<Cell>,
}

impl View for Space {
    type V = Grid;

    closed spec fn view(&self) -> Grid {
        Grid {
            width: self.width as nat,
            height: self.height as nat,
            generation: self.generation,
            cells: self.cells@,
        }
    }
}

impl Space {
    /// Whether the space holds one cell per slot.
    pub open spec fn wf(&self) -> bool {
        self@.wf()
    }

    /// A space of the given size, every cell Empty, at generation 0.
    pub fn new(width: u32, height: u32) -> (space: Space)
        requires
            width <= i32::MAX,
            height <= i32::MAX,
            width * height <= u32::MAX,
        ensures
            space.wf(),
            space@ == Grid::blank(width as nat, height as nat),
    {
        let length: u32 = width * height;
        let mut cells: Vec<Cell> = Vec::with_capacity(length as usize);
        let mut filled: u32 = 0;
        while filled < length
            invariant
                filled <= length,
                cells@.len() == filled,
                forall|i: int| 0 <= i < filled ==> cells@[i] == blank_cell(),
            decreases length - filled,
        {
            cells.push(Cell::empty());
            filled += 1;
        }
        let space = Space { width, height, generation: 0, cells };
        assert(space@.cells =~= Grid::blank(width as nat, height as nat).cells);
        space
    }

    /// Width of the space, in cells.
    pub fn get_width(&self) -> (width: u32)
        ensures
            width == self@.width,
    {
        self.width
    }

    /// Height of the space, in cells.
    pub fn get_height(&self) -> (height: u32)
        ensures
            height == self@.height,
    {
        self.height
    }

    /// The current generation.
    pub fn get_generation(&self) -> (generation: u8)
        ensures
            generation == self@.generation,
    {
        self.generation
    }

    /// Moves on to the next generation. The counter wraps.
    pub fn increment_generation(&mut self)
        ensures
            final(self)@ == old(self)@.bump(),
    {
        self.generation = self.generation.wrapping_add(1);
    }

    /// Marks slot `i` as handled in the current generation.
    pub fn update_cell_generation(&mut self, i: usize)
        requires
            i < old(self)@.cells.len(),
        ensures
            final(self)@ == old(self)@.stamp(i as int),
    {
        let mut cell: Cell = self.cells[i];
        cell.generation = self.generation;
        self.cells.set(i, cell);
    }

    /// Whether slot `i` has not been handled in the current generation.
    pub fn cell_needs_updating(&self, i: usize) -> (pending: bool)
        requires
            i < self@.cells.len(),
        ensures
            pending == self@.needs_update(i as int),
    {
        self.generation != self.cells[i].generation
    }

    /// The slot of the cell at `(x, y)`, which must be inside the space.
    pub fn get_index(&self, x: u32, y: u32) -> (i: usize)
        requires
            self.wf(),
            self@.contains(x as int, y as int),
        ensures
            i == self@.index(x as int, y as int),
            i < self@.cells.len(),
    {
        proof {
            lemma_index_in_range(self@, x as int, y as int);
        }
        (x + (y * self.width)) as usize
    }

    /// The slot of the cell at `(x, y)`, or `None` where `(x, y)` is off the
    /// space.
    pub fn get_index_checked(&self, x: i32, y: i32) -> (slot: Option<usize>)
        requires
            self.wf(),
        ensures
            slot.is_some() == self@.contains(x as int, y as int),
            slot matches Some(i) ==> i == self@.index(x as int, y as int) && i
                < self@.cells.len(),
    {
        self.slot_of(x as i64, y as i64)
    }

    /// The slot of the cell at `(x, y)`, for coordinates of any size.
    pub(crate) fn slot_of(&self, x: i64, y: i64) -> (slot: Option<usize>)
        requires
            self.wf(),
        ensures
            slot.is_some() == self@.contains(x as int, y as int),
            slot matches Some(i) ==> i == self@.index(x as int, y as int) && i
                < self@.cells.len(),
    {
        if x < 0 || y < 0 || x >= self.width as i64 || y >= self.height as i64 {
            None
        } else {
            Some(self.get_index(x as u32, y as u32))
        }
    }

    /// Paints a brush stroke of the given material centred at `(x, y)`.
    ///
    /// The stroke samples the square of five by five slots around the centre.
    /// Slots off the space are ignored, wherever the centre lies. Of the
    /// others every second one is made into the material, and only where it
    /// is Empty or the material is Empty: a stroke erases, or fills gaps, and
    /// never replaces one material by another.
    pub fn add(&mut self, x: i32, y: i32, cell_type: CellType, rng: &mut RandomSource)
        requires
            old(self).wf(),
        ensures
            final(self).wf(),
            final(self)@.shaped_like(old(self)@),
            scene(final(self)@, final(rng)@) == place(
                scene(old(self)@, old(rng)@),
                x as int,
                y as int,
                cell_type,
            ),
    {
        self.paint(x as i64, y as i64, cell_type, rng);
    }

    /// Paints a brush stroke centred at `(x, y)`, which may lie one step
    /// beyond the range of 32-bit coordinates.
    pub(crate) fn paint(&mut self, x: i64, y: i64, cell_type: CellType, rng: &mut RandomSource)
        requires
            old(self).wf(),
            -0x1_0000_0000 <= x <= 0x1_0000_0000,
            -0x1_0000_0000 <= y <= 0x1_0000_0000,
        ensures
            final(self).wf(),
            final(self)@.shaped_like(old(self)@),
            scene(final(self)@, final(rng)@) == place(
                scene(old(self)@, old(rng)@),
                x as int,
                y as int,
                cell_type,
            ),
    {
        let ghost start = scene(self@, rng@);
        let mut sampled: u32 = 0;
        let mut dy: i64 = -2;
        while dy <= 2
            invariant
                -2 <= dy <= 3,
                -0x1_0000_0000 <= x <= 0x1_0000_0000,
                -0x1_0000_0000 <= y <= 0x1_0000_0000,
                self.wf(),
                self@.shaped_like(start.grid),
                start.grid == old(self)@,
                sampled <= (dy + 2) * 5,
                (Stroke { scene: scene(self@, rng@), sampled: sampled as nat }) == brush(
                    start,
                    x as int,
                    y as int,
                    cell_type,
                    ((dy + 2) * 5) as nat,
                ),
            decreases 3 - dy,
        {
            let mut dx: i64 = -2;
            while dx <= 2
                invariant
                    -2 <= dy <= 2,
                    -2 <= dx <= 3,
                    -0x1_0000_0000 <= x <= 0x1_0000_0000,
                    -0x1_0000_0000 <= y <= 0x1_0000_0000,
                    self.wf(),
                    self@.shaped_like(start.grid),
                    start.grid == old(self)@,
                    sampled <= (dy + 2) * 5 + dx + 2,
                    (Stroke { scene: scene(self@, rng@), sampled: sampled as nat }) == brush(
                        start,
                        x as int,
                        y as int,
                        cell_type,
                        ((dy + 2) * 5 + dx + 2) as nat,
                    ),
                decreases 3 - dx,
            {
                let ghost k = (dy + 2) * 5 + dx + 2;
                assert(brush_offset(k) == (dx as int, dy as int));
                assert(brush(start, x as int, y as int, cell_type, (k + 1) as nat) == brush_step(
                    brush(start, x as int, y as int, cell_type, k as nat),
                    x as int,
                    y as int,
                    cell_type,
                    k,
                ));
                if let Some(i) = self.slot_of(x + dx, y + dy) {
                    if sampled % 2 == 0 && (self.cells[i].cell_type == CellType::Empty
                        || cell_type == CellType::Empty) {
                        let mut cell: Cell = self.cells[i];
                        cell.init(cell_type, rng);
                        self.cells.set(i, cell);
                    }
                    sampled += 1;
                }
                dx += 1;
            }
            dy += 1;
        }
    }

    /// The material of the cell at `(x, y)`, which must be inside the space.
    pub fn get_cell_type(&self, x: u32, y: u32) -> (kind: CellType)
        requires
            self.wf(),
            self@.contains(x as int, y as int),
        ensures
            kind == self@.kind_at(self@.index(x as int, y as int)),
    {
        let i: usize = self.get_index(x, y);
        self.cells[i].cell_type
    }

    /// The cell in slot `i`, to read and to change in place.
    pub fn get_cell_at(&mut self, i: usize) -> (cell: &mut Cell)
        requires
            i < old(self)@.cells.len(),
        ensures
            *cell == old(self)@.cells[i as int],
            final(self)@ == old(self)@.put(i as int, *final(cell)),
    {
        &mut self.cells[i]
    }

    /// A copy of the cell in slot `i`.
    pub fn cell_at(&self, i: usize) -> (cell: Cell)
        requires
            i < self@.cells.len(),
        ensures
            cell == self@.cells[i as int],
    {
        self.cells[i]
    }

    /// The material in slot `i`.
    pub fn get_cell_type_at(&self, i: usize) -> (kind: CellType)
        requires
            i < self@.cells.len(),
        ensures
            kind == self@.kind_at(i as int),
    {
        self.cells[i].cell_type
    }

    /// Moves the cell in slot `i` to slot `j`: the two slots exchange their
    /// cells, and the cell that arrives in `j` is marked as handled in the
    /// current generation. The cell that arrives in `i` keeps its stamp.
    pub fn swap_cells(&mut self, i: usize, j: usize)
        requires
            i < old(self)@.cells.len(),
            j < old(self)@.cells.len(),
        ensures
            final(self)@ == old(self)@.swap(i as int, j as int),
    {
        let mut moved: Cell = self.cells[i];
        let displaced: Cell = self.cells[j];
        moved.generation = self.generation;
        self.cells.set(i, displaced);
        self.cells.set(j, moved);
    }

    /// Replaces the cell in slot `i` and marks the slot as handled in the
    /// current generation.
    pub fn set_cell(&mut self, i: usize, cell: &Cell)
        requires
            i < old(self)@.cells.len(),
        ensures
            final(self)@ == old(self)@.overwrite(i as int, *cell),
    {
        let mut placed: Cell = *cell;
        placed.generation = self.generation;
        self.cells.set(i, placed);
    }
}

} // verus!
