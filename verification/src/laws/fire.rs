//! Combustion ends: fire that finds no fuel cools with every tick and goes
//! out.
use crate::cells::{is_flammable, Cell, CellType, AMBIENT_TEMP};
use crate::laws::stamps::{
    lemma_advance_settles, lemma_first_empty_in_range, lemma_neighbours_in_range,
    lemma_sweep_stays_inside, lemma_visit_marks,
};
use crate::random::{drift, lemma_scaled_in_range, scaled, side, Draws};
use crate::space::{lemma_index_in_range, scene, Grid, Scene};
use crate::swapping::{
    advance, burn, burn_down, first_fit, flare, ignite_upto, neighbours, rise, simulate,
    spawn_targets, split_temp, sweep, sweep_position, ticks, visit, COLD_TEMP, COOLING_SPAN,
    SPAWN_TEMP,
};
use vstd::prelude::*;

verus! {

/// Whether every draw of the source cools a burning cell by at least one
/// unit.
pub open spec fn always_cools(draws: Draws) -> bool {
    &&& draws.cursor < draws.cycle.len()
    &&& forall|k: int|
        0 <= k < draws.cycle.len() ==> scaled(#[trigger] draws.cycle[k], COOLING_SPAN)
            >= 1
}

/// Whether an Empty cell is at the temperature of a cell that never burned,
/// or at that of a flame that has gone out.
pub open spec fn is_calm(cell: Cell) -> bool {
    cell.temp == AMBIENT_TEMP || cell.temp == 0
}

/// Whether the cell is a calm Empty cell or a flame no hotter than `bound`
/// and, where it is a flame that is `handled`, burning and below `bound`.
pub open spec fn cell_below(cell: Cell, bound: int, handled: bool) -> bool {
    &&& cell.cell_type == CellType::Fire || (cell.cell_type == CellType::Empty && is_calm(cell))
    &&& cell.cell_type == CellType::Fire ==> cell.temp <= bound
    &&& cell.cell_type == CellType::Fire && handled ==> COLD_TEMP <= cell.temp < bound
}

/// Whether the grid holds nothing but Fire and calm Empty cells, no flame is
/// hotter than `bound`, and every flame that has been handled in the current
/// generation is burning and below `bound`.
pub open spec fn burning_below(grid: Grid, bound: int) -> bool {
    forall|i: int|
        0 <= i < grid.cells.len() ==> cell_below(
            #[trigger] grid.cells[i],
            bound,
            grid.cells[i].generation == grid.generation,
        )
}

/// Whether every cell of the grid is Empty and calm: nothing burns any more.
pub open spec fn no_fire(grid: Grid) -> bool {
    forall|i: int|
        0 <= i < grid.cells.len() ==> (#[trigger] grid.cells[i]).cell_type == CellType::Empty
            && is_calm(grid.cells[i])
}

/// A burning cell that finds nothing to ignite among the given slots leaves
/// the scene as it is and takes no draw.
pub proof fn lemma_ignite_nothing(s: Scene, slots: Seq<int>, k: nat)
    requires
        k <= slots.len(),
        forall|n: int|
            0 <= n < slots.len() ==> 0 <= #[trigger] slots[n] < s.grid.cells.len() && !is_flammable(
                s.grid.kind_at(slots[n]),
            ),
    ensures
        ignite_upto(s, slots, k) == s,
    decreases k,
{
    if k > 0 {
        lemma_ignite_nothing(s, slots, (k - 1) as nat);
        assert(!is_flammable(s.grid.kind_at(slots[k - 1])));
    }
}

/// What a flame leaves when it has cooled and flared: the grid still holds
/// nothing but Fire and calm Empty cells below the bound, and the flame
/// itself, if it still burns, is below the bound too.
pub proof fn lemma_flare_cools(s: Scene, x: int, y: int, bound: int)
    requires
        s.grid.wf(),
        s.grid.contains(x, y),
        burning_below(s.grid, bound),
        always_cools(s.draws),
        s.grid.needs_update(s.grid.index(x, y)),
        s.grid.kind_at(s.grid.index(x, y)) == CellType::Fire,
    ensures
        burn(s, x, y).grid.shaped_like(s.grid),
        always_cools(burn(s, x, y).draws),
        forall|k: int|
            0 <= k < s.grid.cells.len() ==> cell_below(
                #[trigger] burn(s, x, y).grid.cells[k],
                bound,
                burn(s, x, y).grid.cells[k].generation == s.grid.generation || k == s.grid.index(
                    x,
                    y,
                ),
            ),
{
    let grid = s.grid;
    let i = grid.index(x, y);
    lemma_index_in_range(grid, x, y);
    assert(cell_below(grid.cells[i], bound, false));
    // The flame cools by at least one unit.
    let cell = burn_down(grid.cells[i], s.draws.peek());
    assert(scaled(s.draws.peek(), COOLING_SPAN) >= 1);
    lemma_scaled_in_range(s.draws.peek(), COOLING_SPAN);
    assert(cell_below(cell, bound, true));
    // Split or not, it is written back, and a copy may land in an Empty slot.
    let s0 = scene(grid, s.draws.rest());
    let s1 = flare(s0, x, y, cell);
    let split = Cell { temp: split_temp(cell.temp) as i32, ..cell };
    assert(cell.temp > SPAWN_TEMP ==> cell_below(split, bound, true));
    let s_split = scene(grid.put(i, split), s0.draws.rest());
    let dx = side(s_split.draws.peek());
    let dy = side(s_split.draws.rest().peek());
    lemma_first_empty_in_range(s_split.grid, spawn_targets(x, y, dx, dy), 0);
    assert forall|k: int| 0 <= k < grid.cells.len() implies cell_below(
        #[trigger] s1.grid.cells[k],
        bound,
        s1.grid.cells[k].generation == grid.generation || k == i,
    ) by {
        assert(cell_below(grid.cells[k], bound, grid.cells[k].generation == grid.generation));
    }
    // Nothing around it can catch fire.
    let slots = neighbours(s1.grid, x, y);
    lemma_neighbours_in_range(s1.grid, x, y, 9);
    assert forall|n: int| 0 <= n < slots.len() implies 0 <= #[trigger] slots[n]
        < s1.grid.cells.len() && !is_flammable(s1.grid.kind_at(slots[n])) by {
        assert(cell_below(s1.grid.cells[slots[n]], bound, false));
    }
    lemma_ignite_nothing(s1, slots, slots.len());
    assert(burn(s, x, y) == s1);
}

/// Where nothing but Fire and Empty is on the grid and every draw cools, the
/// cell that the sweep comes to is left below the bound.
pub proof fn lemma_visit_cools(s: Scene, x: int, y: int, bound: int)
    requires
        s.grid.wf(),
        s.grid.contains(x, y),
        burning_below(s.grid, bound),
        always_cools(s.draws),
    ensures
        visit(s, x, y).grid.wf(),
        visit(s, x, y).grid.shaped_like(s.grid),
        burning_below(visit(s, x, y).grid, bound),
        always_cools(visit(s, x, y).draws),
{
    let grid = s.grid;
    let i = grid.index(x, y);
    lemma_index_in_range(grid, x, y);
    lemma_visit_marks(s, x, y);
    let last = visit(s, x, y).grid;
    if grid.needs_update(i) && grid.kind_at(i) == CellType::Fire {
        lemma_flare_cools(s, x, y, bound);
        let burnt = burn(s, x, y);
        // The flame may rise into an Empty place.
        let after_draw = scene(burnt.grid, burnt.draws.rest());
        let gx = drift(after_draw.draws.peek());
        let gy = drift(after_draw.draws.rest().peek());
        let target = seq![(x + gx, y + gy)];
        let moved = first_fit(burnt.grid, i, target, 0);
        assert(first_fit(burnt.grid, i, target, 1) == burnt.grid);
        assert(target[0] == (x + gx, y + gy));
        if burnt.grid.contains(x + gx, y + gy) {
            lemma_index_in_range(burnt.grid, x + gx, y + gy);
        }
        let risen = rise(burnt, x, y);
        assert(risen == simulate(s, x, y));
        assert(risen.grid == burnt.grid || risen.grid == moved);
        assert(last == risen.grid.stamp(i));
        assert forall|k: int| 0 <= k < last.cells.len() implies cell_below(
            #[trigger] last.cells[k],
            bound,
            last.cells[k].generation == last.generation,
        ) by {
            assert(cell_below(burnt.grid.cells[k], bound, burnt.grid.cells[k].generation
                == grid.generation || k == i));
            assert(cell_below(burnt.grid.cells[i], bound, true));
            match burnt.grid.slot(x + gx, y + gy) {
                Some(j) => {
                    assert(cell_below(burnt.grid.cells[j], bound, burnt.grid.cells[j].generation
                        == grid.generation || j == i));
                },
                None => {},
            }
        }
    } else {
        assert(grid.needs_update(i) ==> simulate(s, x, y) == s);
        assert forall|k: int| 0 <= k < last.cells.len() implies cell_below(
            #[trigger] last.cells[k],
            bound,
            last.cells[k].generation == last.generation,
        ) by {
            assert(cell_below(grid.cells[k], bound, grid.cells[k].generation == grid.generation));
        }
    }
}

/// Where nothing but Fire and Empty is on the grid and every draw cools, the
/// sweep leaves every cell it has come to below the bound.
pub proof fn lemma_sweep_cools(s: Scene, n: nat, bound: int)
    requires
        s.grid.wf(),
        n <= s.grid.cells.len(),
        burning_below(s.grid, bound),
        always_cools(s.draws),
    ensures
        sweep(s, n).grid.wf(),
        sweep(s, n).grid.shaped_like(s.grid),
        burning_below(sweep(s, n).grid, bound),
        always_cools(sweep(s, n).draws),
    decreases n,
{
    if n > 0 {
        lemma_sweep_cools(s, (n - 1) as nat, bound);
        lemma_sweep_stays_inside(s.grid, n - 1);
        let (x, y) = sweep_position(s.grid, n - 1);
        lemma_visit_cools(sweep(s, (n - 1) as nat), x, y, bound);
    }
}

/// Whether the grid holds nothing but Fire and calm Empty cells, and no
/// flame is hotter than `bound`.
pub open spec fn flames_at_most(grid: Grid, bound: int) -> bool {
    forall|i: int|
        0 <= i < grid.cells.len() ==> {
            let cell = #[trigger] grid.cells[i];
            (cell.cell_type == CellType::Empty && is_calm(cell)) || (cell.cell_type
                == CellType::Fire && cell.temp <= bound)
        }
}

/// Where nothing but Fire and Empty is on a settled grid, no flame is hotter
/// than `bound` and every draw cools, a tick leaves nothing but Fire and
/// Empty, and every flame at [`COLD_TEMP`](COLD_TEMP) or
/// above and below `bound`.
pub proof fn lemma_tick_cools(s: Scene, bound: int)
    requires
        s.grid.wf(),
        s.grid.settled(),
        flames_at_most(s.grid, bound),
        always_cools(s.draws),
    ensures
        advance(s).grid.wf(),
        advance(s).grid.settled(),
        advance(s).grid.shaped_like(s.grid.bump()),
        flames_at_most(advance(s).grid, bound - 1),
        bound <= COLD_TEMP ==> no_fire(advance(s).grid),
        always_cools(advance(s).draws),
{
    let start = scene(s.grid.bump(), s.draws);
    assert forall|i: int| 0 <= i < start.grid.cells.len() implies cell_below(
        #[trigger] start.grid.cells[i],
        bound,
        start.grid.cells[i].generation == start.grid.generation,
    ) by {
        assert(!s.grid.needs_update(i));
    }
    lemma_sweep_cools(start, s.grid.cells.len(), bound);
    lemma_advance_settles(s);
    let last = advance(s).grid;
    assert forall|i: int| 0 <= i < last.cells.len() implies {
        let cell = #[trigger] last.cells[i];
        &&& (cell.cell_type == CellType::Empty && is_calm(cell)) || (cell.cell_type
            == CellType::Fire && cell.temp <= bound - 1)
        &&& bound <= COLD_TEMP ==> cell.cell_type == CellType::Empty && is_calm(cell)
    } by {
        assert(!last.needs_update(i));
        assert(cell_below(last.cells[i], bound, true));
    }
}

/// Where nothing but Fire and Empty is on a settled grid and every draw
/// cools, each tick lowers the temperature that no flame exceeds by one.
pub proof fn lemma_ticks_cool(s: Scene, bound: int, n: nat)
    requires
        s.grid.wf(),
        s.grid.settled(),
        flames_at_most(s.grid, bound),
        always_cools(s.draws),
    ensures
        ticks(s, n).grid.wf(),
        ticks(s, n).grid.settled(),
        flames_at_most(ticks(s, n).grid, bound - n),
        always_cools(ticks(s, n).draws),
        ticks(s, n).grid.width == s.grid.width,
        ticks(s, n).grid.height == s.grid.height,
    decreases n,
{
    if n > 0 {
        lemma_ticks_cool(s, bound, (n - 1) as nat);
        lemma_tick_cools(ticks(s, (n - 1) as nat), bound - (n - 1));
    }
}

/// Fire without fuel burns out: where a settled grid holds nothing but Fire
/// and Empty, with no flame hotter than `bound`, and every draw cools a flame
/// by at least one unit, no cell burns any more once the ticks outnumber the
/// units by which `bound` exceeds the temperature at which a flame goes out.
pub proof fn lemma_fire_burns_out(s: Scene, bound: int, n: nat)
    requires
        s.grid.wf(),
        s.grid.settled(),
        flames_at_most(s.grid, bound),
        always_cools(s.draws),
        n >= 1,
        n + COLD_TEMP > bound,
    ensures
        no_fire(ticks(s, n).grid),
        ticks(s, n).grid.wf(),
        ticks(s, n).grid.width == s.grid.width,
        ticks(s, n).grid.height == s.grid.height,
{
    lemma_ticks_cool(s, bound, (n - 1) as nat);
    lemma_tick_cools(ticks(s, (n - 1) as nat), bound - (n - 1));
}

} // verus!
