//! Following each cell through a tick of the row sweep: which cell makes
//! which move, and why none makes two.
use crate::cells::{init_cell, CellType};
use crate::laws::stamps::{
    lemma_burn_marks, lemma_cool_lava_marks, lemma_dissolve_marks, lemma_neighbours_in_range,
    lemma_simulate_marks, lemma_sweep_marks, lemma_sweep_stays_inside, lemma_visit_marks,
    only_marks,
};
use crate::random::{drift, hits, side};
use crate::space::{lemma_index_in_range, scene, Grid, Scene};
use crate::swapping::{
    burn, can_displace, cool_lava, dissolve_neighbours, first_fit, granular_targets,
    liquid_targets, neighbours, simulate, sweep, sweep_position, visit, RISE_CHANCE,
};
use vstd::prelude::*;

verus! {

/// The slot that the cell in slot `i` moves to when it tries the targets from
/// position `from` on: the first that lies inside the grid and holds a
/// lighter material, or `None` where there is no such target.
pub open spec fn first_target(grid: Grid, i: int, targets: Seq<(int, int)>, from: nat) -> Option<
    int,
>
    decreases targets.len() - from,
{
    if from >= targets.len() {
        None
    } else {
        let (x, y) = targets[from as int];
        match grid.slot(x, y) {
            Some(j) if can_displace(grid.kind_at(i), grid.kind_at(j)) => Some(j),
            _ => first_target(grid, i, targets, from + 1),
        }
    }
}

/// A cell that tries its targets either stays, or changes places with the
/// cell in its first admissible target, which is another slot of the grid.
pub proof fn lemma_first_fit_lands(grid: Grid, i: int, targets: Seq<(int, int)>, from: nat)
    requires
        grid.wf(),
    ensures
        first_fit(grid, i, targets, from) == match first_target(grid, i, targets, from) {
            Some(j) => grid.swap(i, j),
            None => grid,
        },
        first_target(grid, i, targets, from) matches Some(j) ==> 0 <= j < grid.cells.len() && j
            != i,
    decreases targets.len() - from,
{
    if from < targets.len() {
        let (x, y) = targets[from as int];
        if grid.contains(x, y) {
            lemma_index_in_range(grid, x, y);
        }
        lemma_first_fit_lands(grid, i, targets, from + 1);
    }
}

/// What a cell has done by the time it comes to move: the scene it has left,
/// with the draws for the move already taken, and the targets it then tries
/// in order. A cell that does not move has no targets.
pub struct Attempt {
    pub scene: Scene,
    pub targets: Seq<(int, int)>,
}

/// A cell that does not try to move.
pub open spec fn no_attempt(s: Scene) -> Attempt {
    Attempt { scene: s, targets: Seq::empty() }
}

/// The attempt of a granular cell at `(x, y)`.
pub open spec fn granular_attempt(s: Scene, x: int, y: int) -> Attempt {
    Attempt {
        scene: scene(s.grid, s.draws.rest()),
        targets: granular_targets(x, y, side(s.draws.peek())),
    }
}

/// The attempt of a liquid cell at `(x, y)`.
pub open spec fn liquid_attempt(s: Scene, x: int, y: int) -> Attempt {
    Attempt {
        scene: scene(s.grid, s.draws.rest()),
        targets: liquid_targets(x, y, side(s.draws.peek())),
    }
}

/// The attempt of a gas cell at `(x, y)`.
pub open spec fn gas_attempt(s: Scene, x: int, y: int) -> Attempt {
    Attempt {
        scene: scene(s.grid, s.draws.rest().rest()),
        targets: seq![(x + drift(s.draws.peek()), y + drift(s.draws.rest().peek()))],
    }
}

/// What the cell at `(x, y)` has done, by the rule of its material, when it
/// comes to move, and the targets it then tries.
pub open spec fn attempt(s: Scene, x: int, y: int) -> Attempt {
    let i = s.grid.index(x, y);
    match s.grid.kind_at(i) {
        CellType::Empty | CellType::Rock | CellType::Wood => no_attempt(s),
        CellType::Sand | CellType::Gunpowder => granular_attempt(s, x, y),
        CellType::Water | CellType::Oil => liquid_attempt(s, x, y),
        CellType::Propane => gas_attempt(s, x, y),
        CellType::Acid => {
            let c = dissolve_neighbours(s, x, y);
            if c.spent {
                let (cell, draws) = init_cell(c.scene.grid.cells[i], CellType::Empty, c.scene.draws);
                no_attempt(scene(c.scene.grid.put(i, cell), draws))
            } else {
                liquid_attempt(c.scene, x, y)
            }
        },
        CellType::Lava => liquid_attempt(cool_lava(s, x, y), x, y),
        CellType::Fire => {
            let burnt = burn(s, x, y);
            let after = scene(burnt.grid, burnt.draws.rest());
            if hits(burnt.draws.peek(), RISE_CHANCE) {
                gas_attempt(after, x, y)
            } else {
                no_attempt(after)
            }
        },
    }
}

/// The slot that the cell at `(x, y)` moves to when it acts, or `None` where
/// it stays.
pub open spec fn own_move(s: Scene, x: int, y: int) -> Option<int> {
    let a = attempt(s, x, y);
    first_target(a.scene.grid, s.grid.index(x, y), a.targets, 0)
}

/// One move at most: when a cell acts, all it does to the grid after its
/// attempt is prepared is to change places with the cell in the slot of its
/// own move.
pub proof fn lemma_simulate_moves_once(s: Scene, x: int, y: int)
    requires
        s.grid.wf(),
        s.grid.contains(x, y),
    ensures
        simulate(s, x, y).draws == attempt(s, x, y).scene.draws,
        simulate(s, x, y).grid == match own_move(s, x, y) {
            Some(j) => attempt(s, x, y).scene.grid.swap(s.grid.index(x, y), j),
            None => attempt(s, x, y).scene.grid,
        },
        own_move(s, x, y) matches Some(j) ==> 0 <= j < s.grid.cells.len() && j != s.grid.index(
            x,
            y,
        ),
{
    let i = s.grid.index(x, y);
    let a = attempt(s, x, y);
    lemma_index_in_range(s.grid, x, y);
    lemma_simulate_marks(s, x, y);
    lemma_attempt_keeps_shape(s, x, y);
    lemma_first_fit_lands(a.scene.grid, i, a.targets, 0);
    assert(simulate(s, x, y) == scene(first_fit(a.scene.grid, i, a.targets, 0), a.scene.draws));
}

/// Preparing its attempt, a cell moves nothing: the grid keeps its shape,
/// and every slot keeps its stamp or, where a new flame has landed in it, is
/// marked.
pub proof fn lemma_attempt_keeps_shape(s: Scene, x: int, y: int)
    requires
        s.grid.wf(),
        s.grid.contains(x, y),
    ensures
        attempt(s, x, y).scene.grid.wf(),
        attempt(s, x, y).scene.grid.shaped_like(s.grid),
        only_marks(s.grid, attempt(s, x, y).scene.grid),
{
    let i = s.grid.index(x, y);
    lemma_index_in_range(s.grid, x, y);
    match s.grid.kind_at(i) {
        CellType::Acid => {
            let slots = neighbours(s.grid, x, y);
            lemma_neighbours_in_range(s.grid, x, y, 9);
            lemma_dissolve_marks(s, slots, slots.len());
        },
        CellType::Lava => {
            lemma_cool_lava_marks(s, x, y);
        },
        CellType::Fire => {
            lemma_burn_marks(s, x, y);
        },
        _ => {},
    }
}

/// Where every cell of the grid came from, and how often each has moved: the
/// cells are named by the slots they held when the tick began.
pub struct Trace {
    /// For each slot, the name of the cell that is in it now.
    pub tags: Seq<int>,
    /// For each name, the number of moves that the cell has made of its own.
    pub moves: Seq<nat>,
}

/// The trace at the beginning of a tick: every cell in its own slot, none
/// has moved.
pub open spec fn trace_start(slots: nat) -> Trace {
    Trace { tags: Seq::new(slots, |k: int| k), moves: Seq::new(slots, |k: int| 0nat) }
}

/// The trace after the sweep has come to the cell at `(x, y)`: where the cell
/// acts and moves, it changes places with the cell in its target, and the
/// move is counted for it. The cell that is displaced has not moved of its
/// own.
pub open spec fn trace_visit(s: Scene, t: Trace, x: int, y: int) -> Trace {
    let i = s.grid.index(x, y);
    if s.grid.needs_update(i) {
        match own_move(s, x, y) {
            Some(j) => Trace {
                tags: t.tags.update(i, t.tags[j]).update(j, t.tags[i]),
                moves: t.moves.update(t.tags[i], t.moves[t.tags[i]] + 1),
            },
            None => t,
        }
    } else {
        t
    }
}

/// The trace after the sweep has come to the first `n` cells.
pub open spec fn trace_sweep(s: Scene, n: nat) -> Trace
    decreases n,
{
    if n == 0 {
        trace_start(s.grid.cells.len())
    } else {
        let (x, y) = sweep_position(s.grid, n - 1);
        trace_visit(sweep(s, (n - 1) as nat), trace_sweep(s, (n - 1) as nat), x, y)
    }
}

/// Whether the trace fits the grid: every slot holds one cell, no cell is in
/// two slots, no cell has moved twice, and every cell that has moved sits in
/// a slot that is marked as handled.
pub open spec fn traced(grid: Grid, t: Trace) -> bool {
    &&& t.tags.len() == grid.cells.len()
    &&& t.moves.len() == grid.cells.len()
    &&& forall|k: int| 0 <= k < t.tags.len() ==> 0 <= #[trigger] t.tags[k] < t.moves.len()
    &&& forall|k: int, l: int|
        0 <= k < t.tags.len() && 0 <= l < t.tags.len() && k != l ==> #[trigger] t.tags[k]
            != #[trigger] t.tags[l]
    &&& forall|c: int| 0 <= c < t.moves.len() ==> #[trigger] t.moves[c] <= 1
    &&& forall|k: int|
        0 <= k < t.tags.len() && t.moves[#[trigger] t.tags[k]] >= 1 ==> !grid.needs_update(k)
}

/// A visit keeps the trace fitting: the cell that acts had not moved before,
/// and where it lands it is marked.
pub proof fn lemma_visit_traced(s: Scene, t: Trace, x: int, y: int)
    requires
        s.grid.wf(),
        s.grid.contains(x, y),
        traced(s.grid, t),
    ensures
        traced(visit(s, x, y).grid, trace_visit(s, t, x, y)),
{
    let i = s.grid.index(x, y);
    lemma_index_in_range(s.grid, x, y);
    lemma_visit_marks(s, x, y);
    lemma_simulate_moves_once(s, x, y);
    lemma_attempt_keeps_shape(s, x, y);
    let after = visit(s, x, y).grid;
    let u = trace_visit(s, t, x, y);
    if s.grid.needs_update(i) {
        let c = t.tags[i];
        assert(t.moves[c] == 0);
        match own_move(s, x, y) {
            Some(j) => {
                let a = attempt(s, x, y).scene.grid;
                assert(after == a.swap(i, j).stamp(i));
                assert(!after.needs_update(j));
                assert(!after.needs_update(i));
                assert forall|k: int| 0 <= k < u.tags.len() && u.moves[#[trigger] u.tags[k]]
                    >= 1 implies !after.needs_update(k) by {
                    if k != i && k != j {
                        assert(u.tags[k] == t.tags[k]);
                        assert(t.tags[k] != c);
                        assert(t.moves[t.tags[k]] >= 1);
                        assert(!s.grid.needs_update(k));
                        assert(after.cells[k].generation == s.grid.cells[k].generation
                            || after.cells[k].generation == after.generation);
                    }
                }
                assert forall|k: int, l: int|
                    0 <= k < u.tags.len() && 0 <= l < u.tags.len() && k != l implies #[trigger] u.tags[k]
                    != #[trigger] u.tags[l] by {
                    let pk = if k == i {
                        j
                    } else if k == j {
                        i
                    } else {
                        k
                    };
                    let pl = if l == i {
                        j
                    } else if l == j {
                        i
                    } else {
                        l
                    };
                    assert(u.tags[k] == t.tags[pk]);
                    assert(u.tags[l] == t.tags[pl]);
                }
                assert forall|k: int| 0 <= k < u.tags.len() implies 0 <= #[trigger] u.tags[k]
                    < u.moves.len() by {
                    let pk = if k == i {
                        j
                    } else if k == j {
                        i
                    } else {
                        k
                    };
                    assert(u.tags[k] == t.tags[pk]);
                }
            },
            None => {
                assert forall|k: int| 0 <= k < u.tags.len() && u.moves[#[trigger] u.tags[k]]
                    >= 1 implies !after.needs_update(k) by {
                    assert(!s.grid.needs_update(k));
                    assert(after.cells[k].generation == s.grid.cells[k].generation
                        || after.cells[k].generation == after.generation);
                }
            },
        }
    }
}

/// No double move: however far the sweep has come, no cell has made more
/// than one move of its own since the tick began, and every cell that has
/// moved is marked as handled where it is, so that it will not act again.
pub proof fn lemma_no_double_move(s: Scene, n: nat)
    requires
        s.grid.wf(),
        n <= s.grid.cells.len(),
    ensures
        traced(sweep(s, n).grid, trace_sweep(s, n)),
        forall|c: int| 0 <= c < s.grid.cells.len() ==> #[trigger] trace_sweep(s, n).moves[c] <= 1,
    decreases n,
{
    if n > 0 {
        lemma_no_double_move(s, (n - 1) as nat);
        lemma_sweep_marks(s, (n - 1) as nat);
        lemma_sweep_stays_inside(s.grid, n - 1);
        let (x, y) = sweep_position(s.grid, n - 1);
        lemma_visit_traced(sweep(s, (n - 1) as nat), trace_sweep(s, (n - 1) as nat), x, y);
    }
}

/// The trace of a whole tick.
pub open spec fn trace_tick(s: Scene) -> Trace {
    trace_sweep(scene(s.grid.bump(), s.draws), s.grid.cells.len())
}

/// No double move in a tick: from one tick to the next no cell makes more
/// than one move of its own.
pub proof fn lemma_one_move_per_tick(s: Scene)
    requires
        s.grid.wf(),
    ensures
        forall|c: int| 0 <= c < s.grid.cells.len() ==> #[trigger] trace_tick(s).moves[c] <= 1,
{
    lemma_no_double_move(scene(s.grid.bump(), s.draws), s.grid.cells.len());
}

} // verus!
