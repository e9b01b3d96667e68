//! The brush is safe at and beyond the edges of the grid, and spares the
//! material that is there.
use crate::cells::{Cell, CellType};
use crate::space::{
    brush, brush_offset, brush_step, lemma_index_in_range, place, Grid, Scene, Stroke,
    BRUSH_SLOTS,
};
use vstd::prelude::*;

verus! {

/// Whether the cell `after` is the cell `before` as a stroke of `kind` may
/// leave it: as it was, or made into `kind`, with the stamp it had, from an
/// Empty cell or by a stroke that erases.
pub open spec fn painted_cell(before: Cell, after: Cell, kind: CellType) -> bool {
    ||| after == before
    ||| {
        &&& after.cell_type == kind
        &&& after.generation == before.generation
        &&& before.cell_type == CellType::Empty || kind == CellType::Empty
    }
}

/// Whether `after` is `before` as a stroke of `kind` may leave it: the same
/// shape, and no material replaced by another.
pub open spec fn painted_over(before: Grid, after: Grid, kind: CellType) -> bool {
    &&& after.shaped_like(before)
    &&& forall|i: int|
        0 <= i < before.cells.len() ==> painted_cell(before.cells[i], #[trigger] after.cells[i], kind)
}

/// Boundary safety of the brush: wherever the centre of a stroke lies, on
/// the grid, at its edge or far off it, the first `k` samples leave a grid of
/// the same shape in which no material has been replaced by another.
pub proof fn lemma_brush_spares(start: Scene, x: int, y: int, kind: CellType, k: nat)
    requires
        start.grid.wf(),
    ensures
        painted_over(start.grid, brush(start, x, y, kind, k).scene.grid, kind),
    decreases k,
{
    if k > 0 {
        lemma_brush_spares(start, x, y, kind, (k - 1) as nat);
        let before = brush(start, x, y, kind, (k - 1) as nat);
        let (dx, dy) = brush_offset(k - 1);
        let grid = before.scene.grid;
        if grid.contains(x + dx, y + dy) {
            lemma_index_in_range(grid, x + dx, y + dy);
        }
        let after = brush_step(before, x, y, kind, k - 1).scene.grid;
        assert forall|i: int| 0 <= i < start.grid.cells.len() implies painted_cell(
            start.grid.cells[i],
            #[trigger] after.cells[i],
            kind,
        ) by {
            assert(painted_cell(start.grid.cells[i], grid.cells[i], kind));
        }
    }
}

/// A brush stroke is safe and sparing for every centre: the grid keeps its
/// shape, and no material is replaced by another one.
pub proof fn lemma_place_spares(start: Scene, x: int, y: int, kind: CellType)
    requires
        start.grid.wf(),
    ensures
        painted_over(start.grid, place(start, x, y, kind).grid, kind),
        place(start, x, y, kind).grid.wf(),
{
    lemma_brush_spares(start, x, y, kind, BRUSH_SLOTS as nat);
}

/// A brush stroke leaves every stamp: a grid that was settled is settled
/// after it.
pub proof fn lemma_place_keeps_settled(start: Scene, x: int, y: int, kind: CellType)
    requires
        start.grid.wf(),
        start.grid.settled(),
    ensures
        place(start, x, y, kind).grid.settled(),
{
    lemma_place_spares(start, x, y, kind);
    let after = place(start, x, y, kind).grid;
    assert forall|i: int| 0 <= i < after.cells.len() implies !#[trigger] after.needs_update(i) by {
        assert(painted_cell(start.grid.cells[i], after.cells[i], kind));
        assert(!start.grid.needs_update(i));
    }
}

/// A stroke whose samples all lie off the grid changes nothing.
pub proof fn lemma_brush_outside(start: Scene, x: int, y: int, kind: CellType, k: nat)
    requires
        x + 2 < 0 || x - 2 >= start.grid.width || y + 2 < 0 || y - 2 >= start.grid.height,
        k <= BRUSH_SLOTS,
    ensures
        brush(start, x, y, kind, k) == (Stroke { scene: start, sampled: 0 }),
    decreases k,
{
    if k > 0 {
        lemma_brush_outside(start, x, y, kind, (k - 1) as nat);
    }
}

/// A brush stroke centred more than two cells off the grid is ignored.
pub proof fn lemma_place_outside(start: Scene, x: int, y: int, kind: CellType)
    requires
        x + 2 < 0 || x - 2 >= start.grid.width || y + 2 < 0 || y - 2 >= start.grid.height,
    ensures
        place(start, x, y, kind) == start,
{
    lemma_brush_outside(start, x, y, kind, BRUSH_SLOTS as nat);
}

} // verus!
