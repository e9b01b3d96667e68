//! The stamp discipline of the row sweep: a slot that is marked as handled
//! keeps its mark for the rest of the tick, and a tick marks every slot.
use crate::cells::{Cell, CellType};
use crate::space::{lemma_index_in_range, scene, Grid, Scene};
use crate::random::{drift, side};
use crate::swapping::{
    advance, around, burn, burn_down, cool_lava, cooled, dissolve_neighbours, dissolve_upto,
    first_empty, first_fit, flare, granular_targets, ignite_upto, lemma_sweep_position,
    liquid_targets, move_gas, move_granular, move_liquid, neighbours, neighbours_upto, rise,
    simulate, spawn_targets, split_temp, sweep, sweep_position, visit, COLD_TEMP,
};
use vstd::prelude::*;

verus! {

/// Whether `after` has the shape of `before` and, in every slot but `skip`,
/// either the stamp that `before` has there or the stamp of the current
/// generation: between the two, no slot but `skip` has lost its mark.
pub open spec fn only_marks_except(before: Grid, after: Grid, skip: int) -> bool {
    &&& after.shaped_like(before)
    &&& forall|k: int|
        0 <= k < before.cells.len() && k != skip ==> #[trigger] after.cells[k].generation
            == before.cells[k].generation || after.cells[k].generation == after.generation
}

/// Whether `after` has the shape of `before` and, in every slot, either the
/// stamp that `before` has there or the stamp of the current generation.
pub open spec fn only_marks(before: Grid, after: Grid) -> bool {
    only_marks_except(before, after, -1)
}

/// A move marks the slot it arrives in and touches no third slot.
pub proof fn lemma_first_fit_marks(grid: Grid, i: int, targets: Seq<(int, int)>, from: nat)
    requires
        grid.wf(),
        0 <= i < grid.cells.len(),
    ensures
        only_marks_except(grid, first_fit(grid, i, targets, from), i),
    decreases targets.len() - from,
{
    if from < targets.len() {
        let (x, y) = targets[from as int];
        if grid.contains(x, y) {
            lemma_index_in_range(grid, x, y);
        }
        lemma_first_fit_marks(grid, i, targets, from + 1);
    }
}

/// The first Empty target, where there is one, is a slot of the grid.
pub proof fn lemma_first_empty_in_range(grid: Grid, targets: Seq<(int, int)>, from: nat)
    requires
        grid.wf(),
    ensures
        first_empty(grid, targets, from) matches Some(j) ==> 0 <= j < grid.cells.len()
            && grid.kind_at(j) == CellType::Empty,
    decreases targets.len() - from,
{
    if from < targets.len() {
        let (x, y) = targets[from as int];
        if grid.contains(x, y) {
            lemma_index_in_range(grid, x, y);
        }
        lemma_first_empty_in_range(grid, targets, from + 1);
    }
}

/// The neighbours of a cell are slots of the grid.
pub proof fn lemma_neighbours_in_range(grid: Grid, x: int, y: int, k: nat)
    requires
        grid.wf(),
    ensures
        forall|n: int|
            0 <= n < neighbours_upto(grid, x, y, k).len() ==> 0 <= #[trigger] neighbours_upto(
                grid,
                x,
                y,
                k,
            )[n] < grid.cells.len(),
        neighbours_upto(grid, x, y, k).len() <= k,
    decreases k,
{
    if k > 0 {
        lemma_neighbours_in_range(grid, x, y, (k - 1) as nat);
        let (dx, dy) = around(k - 1);
        if grid.contains(x + dx, y + dy) {
            lemma_index_in_range(grid, x + dx, y + dy);
        }
    }
}

/// Igniting neighbours changes cells in place and leaves every stamp.
pub proof fn lemma_ignite_marks(s: Scene, slots: Seq<int>, k: nat)
    requires
        k <= slots.len(),
        forall|n: int| 0 <= n < slots.len() ==> 0 <= #[trigger] slots[n] < s.grid.cells.len(),
    ensures
        only_marks(s.grid, ignite_upto(s, slots, k).grid),
    decreases k,
{
    if k > 0 {
        lemma_ignite_marks(s, slots, (k - 1) as nat);
        assert(0 <= slots[k - 1] < s.grid.cells.len());
    }
}

/// Dissolving neighbours changes cells in place and leaves every stamp.
pub proof fn lemma_dissolve_marks(s: Scene, slots: Seq<int>, k: nat)
    requires
        k <= slots.len(),
        forall|n: int| 0 <= n < slots.len() ==> 0 <= #[trigger] slots[n] < s.grid.cells.len(),
    ensures
        only_marks(s.grid, dissolve_upto(s, slots, k).scene.grid),
    decreases k,
{
    if k > 0 {
        lemma_dissolve_marks(s, slots, (k - 1) as nat);
        assert(0 <= slots[k - 1] < s.grid.cells.len());
    }
}

/// Whatever the cell at `(x, y)` does when it acts, no slot but its own loses
/// its mark, and the grid keeps its shape.
pub proof fn lemma_simulate_marks(s: Scene, x: int, y: int)
    requires
        s.grid.wf(),
        s.grid.contains(x, y),
    ensures
        only_marks_except(s.grid, simulate(s, x, y).grid, s.grid.index(x, y)),
{
    let grid = s.grid;
    let i = grid.index(x, y);
    lemma_index_in_range(grid, x, y);
    match grid.kind_at(i) {
        CellType::Empty | CellType::Rock | CellType::Wood => {},
        CellType::Sand | CellType::Gunpowder | CellType::Water | CellType::Oil
        | CellType::Propane => {
            lemma_moves_mark(s, x, y);
        },
        CellType::Acid => {
            let slots = neighbours(grid, x, y);
            lemma_neighbours_in_range(grid, x, y, 9);
            lemma_dissolve_marks(s, slots, slots.len());
            lemma_moves_mark(dissolve_neighbours(s, x, y).scene, x, y);
        },
        CellType::Lava => {
            lemma_cool_lava_marks(s, x, y);
            lemma_moves_mark(cool_lava(s, x, y), x, y);
        },
        CellType::Fire => {
            lemma_burn_marks(s, x, y);
            lemma_moves_mark(burn(s, x, y), x, y);
        },
    }
}

/// Each of the three ways to move, and a flame's chance to rise, marks the
/// slot it arrives in and touches no third slot.
pub proof fn lemma_moves_mark(s: Scene, x: int, y: int)
    requires
        s.grid.wf(),
        s.grid.contains(x, y),
    ensures
        only_marks_except(s.grid, move_granular(s, x, y).grid, s.grid.index(x, y)),
        only_marks_except(s.grid, move_liquid(s, x, y).grid, s.grid.index(x, y)),
        only_marks_except(s.grid, move_gas(s, x, y).grid, s.grid.index(x, y)),
        only_marks_except(s.grid, rise(s, x, y).grid, s.grid.index(x, y)),
{
    let i = s.grid.index(x, y);
    lemma_index_in_range(s.grid, x, y);
    let d = side(s.draws.peek());
    lemma_first_fit_marks(s.grid, i, granular_targets(x, y, d), 0);
    lemma_first_fit_marks(s.grid, i, liquid_targets(x, y, d), 0);
    let dx = drift(s.draws.peek());
    let dy = drift(s.draws.rest().peek());
    lemma_first_fit_marks(s.grid, i, seq![(x + dx, y + dy)], 0);
    let dx2 = drift(s.draws.rest().peek());
    let dy2 = drift(s.draws.rest().rest().peek());
    lemma_first_fit_marks(s.grid, i, seq![(x + dx2, y + dy2)], 0);
}

/// A flame that flares up writes its own slot and marks the slot where the
/// new flame lands.
pub proof fn lemma_flare_marks(s: Scene, x: int, y: int, cell: Cell)
    requires
        s.grid.wf(),
        s.grid.contains(x, y),
    ensures
        only_marks_except(s.grid, flare(s, x, y, cell).grid, s.grid.index(x, y)),
{
    let i = s.grid.index(x, y);
    lemma_index_in_range(s.grid, x, y);
    let split = Cell { temp: split_temp(cell.temp) as i32, ..cell };
    let s1 = scene(s.grid.put(i, split), s.draws.rest());
    let dx = side(s1.draws.peek());
    let dy = side(s1.draws.rest().peek());
    lemma_first_empty_in_range(s1.grid, spawn_targets(x, y, dx, dy), 0);
}

/// Lava that cools, sets and ignites moves nothing: every slot keeps its
/// stamp.
pub proof fn lemma_cool_lava_marks(s: Scene, x: int, y: int)
    requires
        s.grid.wf(),
        s.grid.contains(x, y),
    ensures
        cool_lava(s, x, y).grid.shaped_like(s.grid),
        only_marks(s.grid, cool_lava(s, x, y).grid),
{
    let i = s.grid.index(x, y);
    lemma_index_in_range(s.grid, x, y);
    let cell = s.grid.cells[i];
    let temp = cooled(cell.temp, s.draws.peek()) as i32;
    let set = temp < COLD_TEMP;
    let now = Cell {
        cell_type: if set {
            CellType::Rock
        } else {
            CellType::Lava
        },
        temp,
        ..cell
    };
    let s1 = scene(s.grid.put(i, now), s.draws.rest());
    let slots = neighbours(s1.grid, x, y);
    lemma_neighbours_in_range(s1.grid, x, y, 9);
    lemma_ignite_marks(s1, slots, slots.len());
}

/// A Fire cell that burns moves nothing: the grid keeps its shape, and every
/// slot keeps its stamp or, where a new flame has landed in it, is marked.
pub proof fn lemma_burn_marks(s: Scene, x: int, y: int)
    requires
        s.grid.wf(),
        s.grid.contains(x, y),
        s.grid.kind_at(s.grid.index(x, y)) == CellType::Fire,
    ensures
        burn(s, x, y).grid.shaped_like(s.grid),
        only_marks(s.grid, burn(s, x, y).grid),
{
    let i = s.grid.index(x, y);
    lemma_index_in_range(s.grid, x, y);
    let cell = burn_down(s.grid.cells[i], s.draws.peek());
    let s0 = scene(s.grid, s.draws.rest());
    lemma_flare_marks(s0, x, y, cell);
    let s1 = flare(s0, x, y, cell);
    // The new flame lands in an Empty slot, which is not the cell's own.
    let split = Cell { temp: split_temp(cell.temp) as i32, ..cell };
    let s_split = scene(s0.grid.put(i, split), s0.draws.rest());
    let dx = side(s_split.draws.peek());
    let dy = side(s_split.draws.rest().peek());
    lemma_first_empty_in_range(
        s_split.grid,
        spawn_targets(x, y, dx, dy),
        0,
    );
    assert(s1.grid.cells[i].generation == s.grid.cells[i].generation);
    let slots = neighbours(s1.grid, x, y);
    lemma_neighbours_in_range(s1.grid, x, y, 9);
    lemma_ignite_marks(s1, slots, slots.len());
}

/// After the sweep has come to a cell, the cell's slot is marked, and no
/// slot has lost its mark.
pub proof fn lemma_visit_marks(s: Scene, x: int, y: int)
    requires
        s.grid.wf(),
        s.grid.contains(x, y),
    ensures
        only_marks(s.grid, visit(s, x, y).grid),
        !visit(s, x, y).grid.needs_update(s.grid.index(x, y)),
        visit(s, x, y).grid.wf(),
{
    lemma_index_in_range(s.grid, x, y);
    lemma_simulate_marks(s, x, y);
}

/// A cell that is marked as handled in the current generation is passed over:
/// the sweep leaves the scene as it is, and takes no draw.
pub proof fn lemma_marked_cell_rests(s: Scene, x: int, y: int)
    requires
        !s.grid.needs_update(s.grid.index(x, y)),
    ensures
        visit(s, x, y) == s,
{
}

/// The slot of the cell that the sweep comes to in `k`-th place.
pub open spec fn sweep_slot(grid: Grid, k: int) -> int {
    grid.index(sweep_position(grid, k).0, sweep_position(grid, k).1)
}

/// The sweep comes to cells of the grid only.
pub proof fn lemma_sweep_stays_inside(grid: Grid, k: int)
    requires
        grid.wf(),
        0 <= k < grid.cells.len(),
    ensures
        grid.contains(sweep_position(grid, k).0, sweep_position(grid, k).1),
        0 <= sweep_slot(grid, k) < grid.cells.len(),
{
    let w = grid.width as int;
    let h = grid.height as int;
    assert(w > 0 && h > 0) by (nonlinear_arith)
        requires
            0 <= k < w * h,
            0 <= w,
            0 <= h,
    ;
    let rows = k / w;
    let column = k % w;
    vstd::arithmetic::div_mod::lemma_fundamental_div_mod(k, w);
    assert(0 <= column < w);
    assert(0 <= rows < h) by (nonlinear_arith)
        requires
            k == w * rows + column,
            0 <= column < w,
            0 <= k < w * h,
            0 < w,
    ;
    assert(w * rows == rows * w) by (nonlinear_arith);
    lemma_sweep_position(grid, rows, column);
    lemma_index_in_range(grid, sweep_position(grid, k).0, sweep_position(grid, k).1);
}

/// The sweep comes to every cell: the cell at `(x, y)` has its place in it.
pub proof fn lemma_sweep_reaches(grid: Grid, x: int, y: int) -> (k: int)
    requires
        grid.wf(),
        grid.contains(x, y),
    ensures
        0 <= k < grid.cells.len(),
        sweep_position(grid, k) == (x, y),
{
    let rows = grid.height - 1 - y;
    let column = if y % 2 == 0 {
        x
    } else {
        grid.width - 1 - x
    };
    lemma_sweep_position(grid, rows, column);
    rows * grid.width + column
}

/// The sweep comes to no cell twice.
pub proof fn lemma_sweep_comes_once(grid: Grid, k1: int, k2: int)
    requires
        grid.wf(),
        0 <= k1 < grid.cells.len(),
        0 <= k2 < grid.cells.len(),
        sweep_slot(grid, k1) == sweep_slot(grid, k2),
    ensures
        k1 == k2,
{
    let w = grid.width as int;
    lemma_sweep_stays_inside(grid, k1);
    lemma_sweep_stays_inside(grid, k2);
    let (x1, y1) = sweep_position(grid, k1);
    let (x2, y2) = sweep_position(grid, k2);
    crate::space::lemma_index_injective(grid, x1, y1, x2, y2);
    assert(w > 0);
    vstd::arithmetic::div_mod::lemma_fundamental_div_mod(k1, w);
    vstd::arithmetic::div_mod::lemma_fundamental_div_mod(k2, w);
}

/// While the sweep goes on, the grid keeps its shape, no slot loses its
/// mark, and every cell that the sweep has come to is marked.
pub proof fn lemma_sweep_marks(s: Scene, n: nat)
    requires
        s.grid.wf(),
        n <= s.grid.cells.len(),
    ensures
        sweep(s, n).grid.wf(),
        only_marks(s.grid, sweep(s, n).grid),
        forall|k: int| 0 <= k < n ==> !sweep(s, n).grid.needs_update(#[trigger] sweep_slot(s.grid, k)),
    decreases n,
{
    if n > 0 {
        let before = sweep(s, (n - 1) as nat);
        lemma_sweep_marks(s, (n - 1) as nat);
        let (x, y) = sweep_position(s.grid, n - 1);
        lemma_sweep_stays_inside(s.grid, n - 1);
        lemma_visit_marks(before, x, y);
        let after = visit(before, x, y);
        assert(after == sweep(s, n));
        assert forall|k: int| 0 <= k < n implies !after.grid.needs_update(
            #[trigger] sweep_slot(s.grid, k),
        ) by {
            lemma_sweep_stays_inside(s.grid, k);
            let slot = sweep_slot(s.grid, k);
            if k < n - 1 {
                assert(!before.grid.needs_update(slot));
                assert(after.grid.cells[slot].generation == before.grid.cells[slot].generation
                    || after.grid.cells[slot].generation == after.grid.generation);
            }
        }
    }
}

/// After a tick every cell carries the stamp of the new generation: each was
/// either handled in its turn, or marked when it arrived where it is.
pub proof fn lemma_advance_settles(s: Scene)
    requires
        s.grid.wf(),
    ensures
        advance(s).grid.wf(),
        advance(s).grid.shaped_like(s.grid.bump()),
        advance(s).grid.settled(),
{
    let start = scene(s.grid.bump(), s.draws);
    let n = s.grid.cells.len();
    lemma_sweep_marks(start, n);
    let after = advance(s).grid;
    assert forall|i: int| 0 <= i < after.cells.len() implies !#[trigger] after.needs_update(i) by {
        let w = start.grid.width as int;
        assert(w > 0) by (nonlinear_arith)
            requires
                0 <= i < w * start.grid.height,
                0 <= w,
        ;
        let y = i / w;
        let x = i % w;
        vstd::arithmetic::div_mod::lemma_fundamental_div_mod(i, w);
        assert(0 <= y < start.grid.height) by (nonlinear_arith)
            requires
                i == w * y + x,
                0 <= x < w,
                0 <= i < w * start.grid.height,
        ;
        assert(w * y == y * w) by (nonlinear_arith);
        let k = lemma_sweep_reaches(start.grid, x, y);
        assert(sweep_slot(start.grid, k) == i);
    }
}

} // verus!
