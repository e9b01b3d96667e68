//! Density ordering: a sinking material changes places with a lighter one
//! that rests below it.
use crate::cells::{density_of, is_dissolvable, CellType};
use crate::laws::stamps::{
    lemma_neighbours_in_range, lemma_sweep_comes_once, lemma_sweep_reaches,
    lemma_sweep_stays_inside, sweep_slot,
};
use crate::space::{lemma_index_in_range, scene, Grid, Scene};
use crate::random::{drift, side};
use crate::swapping::{
    advance, around, can_displace, dissolve_upto, first_fit, granular_targets, liquid_targets,
    neighbours, neighbours_upto, simulate, sweep, sweep_position, visit, Corrosion,
};
use vstd::prelude::*;

verus! {

/// A cell that finds every target off the grid or held by a material it
/// cannot displace stays where it is.
pub proof fn lemma_first_fit_blocked(grid: Grid, i: int, targets: Seq<(int, int)>, from: nat)
    requires
        forall|k: int|
            from <= k < targets.len() ==> {
                let (x, y) = #[trigger] targets[k];
                grid.contains(x, y) ==> !can_displace(grid.kind_at(i), grid.kind_at(grid.index(x, y)))
            },
    ensures
        first_fit(grid, i, targets, from) == grid,
    decreases targets.len() - from,
{
    if from < targets.len() {
        let (x, y) = targets[from as int];
        lemma_first_fit_blocked(grid, i, targets, from + 1);
    }
}

/// In a grid one cell wide, the neighbours of a cell are the cell above it
/// and the cell below it, as far as the grid reaches.
pub proof fn lemma_neighbours_in_column(grid: Grid, y: int)
    requires
        grid.wf(),
        grid.width == 1,
        0 <= y < grid.height,
    ensures
        neighbours(grid, 0, y) == if y >= 1 && y + 1 < grid.height {
            seq![y - 1, y + 1]
        } else if y >= 1 {
            seq![y - 1]
        } else if y + 1 < grid.height {
            seq![y + 1]
        } else {
            Seq::<int>::empty()
        },
{
    let n0 = neighbours_upto(grid, 0, y, 0);
    let n1 = neighbours_upto(grid, 0, y, 1);
    let n2 = neighbours_upto(grid, 0, y, 2);
    let n3 = neighbours_upto(grid, 0, y, 3);
    let n4 = neighbours_upto(grid, 0, y, 4);
    let n5 = neighbours_upto(grid, 0, y, 5);
    let n6 = neighbours_upto(grid, 0, y, 6);
    let n7 = neighbours_upto(grid, 0, y, 7);
    let n8 = neighbours_upto(grid, 0, y, 8);
    let n9 = neighbours_upto(grid, 0, y, 9);
    assert(n0 =~= Seq::<int>::empty());
    assert(around(0) == (-1int, -1int) && n1 == n0);
    assert(around(1) == (-1int, 0int) && n2 == n1);
    assert(around(2) == (-1int, 1int) && n3 == n2);
    assert(around(3) == (0int, -1int));
    assert(grid.index(0, y - 1) == y - 1 && grid.index(0, y + 1) == y + 1) by (nonlinear_arith)
        requires
            grid.width == 1,
    ;
    assert(n4 == if y >= 1 {
        n3.push(y - 1)
    } else {
        n3
    });
    assert(around(4) == (0int, 0int) && n5 == n4);
    assert(around(5) == (0int, 1int));
    assert(n6 == if y + 1 < grid.height {
        n5.push(y + 1)
    } else {
        n5
    });
    assert(around(6) == (1int, -1int) && n7 == n6);
    assert(around(7) == (1int, 0int) && n8 == n7);
    assert(around(8) == (1int, 1int) && n9 == n8);
    assert(n9 =~= if y >= 1 && y + 1 < grid.height {
        seq![y - 1, y + 1]
    } else if y >= 1 {
        seq![y - 1]
    } else if y + 1 < grid.height {
        seq![y + 1]
    } else {
        Seq::<int>::empty()
    });
}

/// Acid that has nothing around it to dissolve leaves the scene as it is and
/// takes no draw.
pub proof fn lemma_dissolve_nothing(s: Scene, slots: Seq<int>, k: nat)
    requires
        k <= slots.len(),
        forall|n: int|
            0 <= n < slots.len() ==> !is_dissolvable(s.grid.kind_at(#[trigger] slots[n])),
    ensures
        dissolve_upto(s, slots, k) == (Corrosion { scene: s, spent: false }),
    decreases k,
{
    if k > 0 {
        lemma_dissolve_nothing(s, slots, (k - 1) as nat);
        assert(!is_dissolvable(s.grid.kind_at(slots[k - 1])));
    }
}

/// The materials that go down by their own rule and do nothing else to the
/// cell below them: the granular ones and the liquids.
pub open spec fn sinks(kind: CellType) -> bool {
    kind == CellType::Sand || kind == CellType::Gunpowder || kind == CellType::Water || kind
        == CellType::Oil || kind == CellType::Acid
}

/// Whether a cell of material `lower` keeps still, and leaves the cell of
/// material `upper` above it alone, when it sits at the bottom of a grid one
/// cell wide: Fire does not, and Acid does not under what it dissolves.
pub open spec fn rests_under(lower: CellType, upper: CellType) -> bool {
    lower != CellType::Fire && !(lower == CellType::Acid && is_dissolvable(upper))
}

/// The lower of two cells at the bottom of a grid one cell wide, lighter
/// than the cell above it, does not change the grid when it acts.
pub proof fn lemma_lighter_stays_below(s: Scene)
    requires
        s.grid.wf(),
        s.grid.width == 1,
        s.grid.height >= 2,
        density_of(s.grid.kind_at(s.grid.height - 2)) > density_of(
            s.grid.kind_at(s.grid.height - 1),
        ),
        rests_under(s.grid.kind_at(s.grid.height - 1), s.grid.kind_at(s.grid.height - 2)),
    ensures
        simulate(s, 0, s.grid.height - 1).grid == s.grid,
{
    let grid = s.grid;
    let y = grid.height - 1;
    let i = grid.index(0, y);
    assert(i == y && grid.index(0, y - 1) == y - 1) by (nonlinear_arith)
        requires
            grid.width == 1,
            i == grid.index(0, y),
    ;
    let lower = grid.kind_at(i);
    let d = side(s.draws.peek());
    lemma_first_fit_blocked(grid, i, liquid_targets(0, y, d), 0);
    lemma_first_fit_blocked(grid, i, granular_targets(0, y, d), 0);
    let gx = drift(s.draws.peek());
    let gy = drift(s.draws.rest().peek());
    assert(grid.index(gx, y + gy) == gx + (y + gy)) by (nonlinear_arith)
        requires
            grid.width == 1,
    ;
    lemma_first_fit_blocked(grid, i, seq![(gx, y + gy)], 0);
    if lower == CellType::Acid {
        lemma_neighbours_in_column(grid, y);
        let slots = neighbours(grid, 0, y);
        assert(slots =~= seq![y - 1]);
        lemma_dissolve_nothing(s, slots, slots.len());
    }
}

/// The upper of two cells at the bottom of a grid one cell wide, a material
/// that sinks and denser than the cell below it, changes places with that
/// cell when it acts.
pub proof fn lemma_denser_goes_down(s: Scene)
    requires
        s.grid.wf(),
        s.grid.width == 1,
        s.grid.height >= 2,
        sinks(s.grid.kind_at(s.grid.height - 2)),
        density_of(s.grid.kind_at(s.grid.height - 2)) > density_of(
            s.grid.kind_at(s.grid.height - 1),
        ),
        s.grid.height >= 3 ==> s.grid.kind_at(s.grid.height - 3) == CellType::Empty,
    ensures
        simulate(s, 0, s.grid.height - 2).grid == s.grid.swap(
            s.grid.height - 2,
            s.grid.height - 1,
        ),
{
    let grid = s.grid;
    let y = grid.height - 2;
    let i = grid.index(0, y);
    assert(i == y && grid.index(0, y + 1) == y + 1) by (nonlinear_arith)
        requires
            grid.width == 1,
            i == grid.index(0, y),
    ;
    let upper = grid.kind_at(i);
    let d = side(s.draws.peek());
    assert(liquid_targets(0, y, d)[0] == (0int, y + 1));
    assert(granular_targets(0, y, d)[0] == (0int, y + 1));
    if upper == CellType::Acid {
        lemma_neighbours_in_column(grid, y);
        let slots = neighbours(grid, 0, y);
        assert forall|n: int| 0 <= n < slots.len() implies !is_dissolvable(
            grid.kind_at(#[trigger] slots[n]),
        ) by {
            if y >= 1 {
                assert(slots =~= seq![y - 1, y + 1]);
            } else {
                assert(slots =~= seq![y + 1]);
            }
        }
        lemma_dissolve_nothing(s, slots, slots.len());
    }
}

/// The sweep over a grid one cell wide whose two lowest cells are a sinking
/// material above a lighter one that rests, under nothing but Empty: once it
/// has come to both, the two have changed places, and they stay so.
pub proof fn lemma_sweep_sinks(start: Scene, n: nat)
    requires
        start.grid.wf(),
        start.grid.width == 1,
        start.grid.height >= 2,
        2 <= n <= start.grid.height,
        forall|i: int| 0 <= i < start.grid.cells.len() ==> #[trigger] start.grid.needs_update(i),
        forall|i: int|
            0 <= i < start.grid.height - 2 ==> #[trigger] start.grid.kind_at(i) == CellType::Empty,
        sinks(start.grid.kind_at(start.grid.height - 2)),
        density_of(start.grid.kind_at(start.grid.height - 2)) > density_of(
            start.grid.kind_at(start.grid.height - 1),
        ),
        rests_under(
            start.grid.kind_at(start.grid.height - 1),
            start.grid.kind_at(start.grid.height - 2),
        ),
    ensures
        sweep(start, n).grid.shaped_like(start.grid),
        sweep(start, n).grid.cells[start.grid.height - 1] == start.grid.stamped(
            start.grid.cells[start.grid.height - 2],
        ),
        sweep(start, n).grid.cells[start.grid.height - 2] == start.grid.stamped(
            start.grid.cells[start.grid.height - 1],
        ),
        forall|i: int|
            0 <= i < start.grid.height - 2 ==> #[trigger] sweep(start, n).grid.kind_at(i)
                == CellType::Empty,
        forall|i: int|
            0 <= i < start.grid.height - n ==> #[trigger] sweep(start, n).grid.cells[i]
                == start.grid.cells[i],
    decreases n,
{
    let grid = start.grid;
    let h = grid.height as int;
    assert(grid.cells.len() == h) by (nonlinear_arith)
        requires
            grid.cells.len() == grid.width * grid.height,
            grid.width == 1,
            h == grid.height,
    ;
    assert forall|k: int| 0 <= k < h implies #[trigger] sweep_position(grid, k) == (
        0int,
        h - 1 - k,
    ) && grid.index(0, h - 1 - k) == h - 1 - k by {
        assert(grid.index(0, h - 1 - k) == h - 1 - k) by (nonlinear_arith)
            requires
                grid.width == 1,
        ;
    }
    if n == 2 {
        assert(sweep(start, 0) == start);
        assert(sweep_position(grid, 0) == (0int, h - 1));
        assert(sweep(start, 1) == visit(start, 0, h - 1));
        lemma_lighter_stays_below(start);
        assert(grid.needs_update(h - 1));
        let s1 = sweep(start, 1);
        assert(s1.grid == grid.stamp(h - 1));
        assert(sweep_position(grid, 1) == (0int, h - 2));
        assert(sweep(start, 2) == visit(s1, 0, h - 2));
        assert(grid.needs_update(h - 2));
        if h >= 3 {
            assert(grid.kind_at(h - 3) == CellType::Empty);
        }
        lemma_denser_goes_down(s1);
        let moved = simulate(s1, 0, h - 2).grid;
        assert(moved == s1.grid.swap(h - 2, h - 1));
        let last = sweep(start, 2).grid;
        assert(last == moved.stamp(h - 2));
        assert forall|i: int| 0 <= i < h - 2 implies #[trigger] last.kind_at(i)
            == CellType::Empty by {
            assert(last.cells[i] == grid.cells[i]);
            assert(grid.kind_at(i) == CellType::Empty);
        }
    } else {
        let before = sweep(start, (n - 1) as nat);
        lemma_sweep_sinks(start, (n - 1) as nat);
        assert(sweep_position(grid, n - 1) == (0int, h - n));
        let i = h - n;
        assert(before.grid.index(0, i) == i) by (nonlinear_arith)
            requires
                before.grid.width == 1,
        ;
        assert(before.grid.cells[i] == grid.cells[i]);
        assert(grid.kind_at(i) == CellType::Empty);
        assert(simulate(before, 0, i) == before);
        let last = sweep(start, n).grid;
        assert(last == before.grid || last == before.grid.stamp(i));
        assert forall|k: int| 0 <= k < h - 2 implies #[trigger] last.kind_at(k)
            == CellType::Empty by {
            assert(before.grid.kind_at(k) == CellType::Empty);
        }
    }
}

/// Density ordering: in a grid one cell wide that holds nothing but a cell
/// of a sinking material directly above a cell of a lighter material that
/// rests at the bottom, the two change places within one tick.
pub proof fn lemma_denser_sinks(s: Scene)
    requires
        s.grid.wf(),
        s.grid.settled(),
        s.grid.width == 1,
        s.grid.height >= 2,
        forall|i: int|
            0 <= i < s.grid.height - 2 ==> #[trigger] s.grid.kind_at(i) == CellType::Empty,
        sinks(s.grid.kind_at(s.grid.height - 2)),
        density_of(s.grid.kind_at(s.grid.height - 2)) > density_of(
            s.grid.kind_at(s.grid.height - 1),
        ),
        rests_under(s.grid.kind_at(s.grid.height - 1), s.grid.kind_at(s.grid.height - 2)),
    ensures
        advance(s).grid.shaped_like(s.grid.bump()),
        advance(s).grid.cells[s.grid.height - 1] == advance(s).grid.stamped(
            s.grid.cells[s.grid.height - 2],
        ),
        advance(s).grid.cells[s.grid.height - 2] == advance(s).grid.stamped(
            s.grid.cells[s.grid.height - 1],
        ),
        forall|i: int|
            0 <= i < s.grid.height - 2 ==> #[trigger] advance(s).grid.kind_at(i) == CellType::Empty,
{
    let start = scene(s.grid.bump(), s.draws);
    assert(s.grid.cells.len() == s.grid.height) by (nonlinear_arith)
        requires
            s.grid.cells.len() == s.grid.width * s.grid.height,
            s.grid.width == 1,
    ;
    assert forall|i: int| 0 <= i < start.grid.cells.len() implies #[trigger] start.grid.needs_update(
        i,
    ) by {
        assert(!s.grid.needs_update(i));
    }
    assert forall|i: int| 0 <= i < start.grid.height - 2 implies #[trigger] start.grid.kind_at(i)
        == CellType::Empty by {
        assert(s.grid.kind_at(i) == CellType::Empty);
    }
    lemma_sweep_sinks(start, s.grid.height);
}

/// Whether the grid holds nothing but Empty cells and one cell, in slot
/// `i`.
pub open spec fn alone(grid: Grid, i: int) -> bool {
    forall|k: int| 0 <= k < grid.cells.len() && k != i ==> #[trigger] grid.kind_at(k) == CellType::Empty
}

/// A sinking cell that has nothing but Empty around it goes straight down
/// when it acts.
pub proof fn lemma_falls_into_empty(s: Scene, x: int, y: int)
    requires
        s.grid.wf(),
        s.grid.contains(x, y),
        s.grid.contains(x, y + 1),
        sinks(s.grid.kind_at(s.grid.index(x, y))),
        alone(s.grid, s.grid.index(x, y)),
    ensures
        simulate(s, x, y).grid == s.grid.swap(s.grid.index(x, y), s.grid.index(x, y + 1)),
{
    let grid = s.grid;
    let i = grid.index(x, y);
    let j = grid.index(x, y + 1);
    lemma_index_in_range(grid, x, y);
    lemma_index_in_range(grid, x, y + 1);
    assert(j == i + grid.width) by (nonlinear_arith)
        requires
            i == x + y * grid.width,
            j == x + (y + 1) * grid.width,
    ;
    let d = side(s.draws.peek());
    assert(liquid_targets(x, y, d)[0] == (x, y + 1));
    assert(granular_targets(x, y, d)[0] == (x, y + 1));
    assert(grid.kind_at(j) == CellType::Empty);
    if grid.kind_at(i) == CellType::Acid {
        let slots = neighbours(grid, x, y);
        lemma_neighbours_in_range(grid, x, y, 9);
        lemma_neighbours_exclude(grid, x, y, 9);
        assert forall|n: int| 0 <= n < slots.len() implies !is_dissolvable(
            grid.kind_at(#[trigger] slots[n]),
        ) by {
            assert(grid.kind_at(slots[n]) == CellType::Empty);
        }
        lemma_dissolve_nothing(s, slots, slots.len());
    }
}

/// A cell is not among its own neighbours.
pub proof fn lemma_neighbours_exclude(grid: Grid, x: int, y: int, k: nat)
    requires
        grid.wf(),
        grid.contains(x, y),
        k <= 9,
    ensures
        forall|n: int|
            0 <= n < neighbours_upto(grid, x, y, k).len() ==> #[trigger] neighbours_upto(
                grid,
                x,
                y,
                k,
            )[n] != grid.index(x, y),
    decreases k,
{
    if k > 0 {
        lemma_neighbours_exclude(grid, x, y, (k - 1) as nat);
        let before = neighbours_upto(grid, x, y, (k - 1) as nat);
        let now = neighbours_upto(grid, x, y, k);
        let (dx, dy) = around(k - 1);
        if grid.contains(x + dx, y + dy) && k - 1 != 4 {
            assert(dx != 0 || dy != 0);
            if grid.index(x + dx, y + dy) == grid.index(x, y) {
                crate::space::lemma_index_injective(grid, x + dx, y + dy, x, y);
            }
            assert(now == before.push(grid.index(x + dx, y + dy)));
        } else {
            assert(now == before);
        }
        assert forall|n: int| 0 <= n < now.len() implies #[trigger] now[n] != grid.index(
            x,
            y,
        ) by {
            if n < before.len() {
                assert(now[n] == before[n]);
            }
        }
    }
}

/// The sweep over a grid that holds a single sinking cell above an Empty
/// one: until it comes to the cell, nothing changes but stamps; when it has
/// come to it, the cell is one row further down, and stays there.
pub proof fn lemma_sweep_drops(start: Scene, x: int, y: int, turn: int, n: nat)
    requires
        start.grid.wf(),
        start.grid.contains(x, y),
        start.grid.contains(x, y + 1),
        sinks(start.grid.kind_at(start.grid.index(x, y))),
        alone(start.grid, start.grid.index(x, y)),
        forall|k: int| 0 <= k < start.grid.cells.len() ==> #[trigger] start.grid.needs_update(k),
        0 <= turn < start.grid.cells.len(),
        sweep_position(start.grid, turn) == (x, y),
        n <= start.grid.cells.len(),
    ensures
        sweep(start, n).grid.shaped_like(start.grid),
        n <= turn ==> alone(sweep(start, n).grid, start.grid.index(x, y)) && sweep(
            start,
            n,
        ).grid.cells[start.grid.index(x, y)] == start.grid.cells[start.grid.index(x, y)],
        n > turn ==> alone(sweep(start, n).grid, start.grid.index(x, y + 1)) && sweep(
            start,
            n,
        ).grid.cells[start.grid.index(x, y + 1)] == start.grid.stamped(
            start.grid.cells[start.grid.index(x, y)],
        ),
    decreases n,
{
    let grid = start.grid;
    let i = grid.index(x, y);
    let j = grid.index(x, y + 1);
    lemma_index_in_range(grid, x, y);
    lemma_index_in_range(grid, x, y + 1);
    if i == j {
        crate::space::lemma_index_injective(grid, x, y, x, y + 1);
    }
    if n > 0 {
        let before = sweep(start, (n - 1) as nat);
        lemma_sweep_drops(start, x, y, turn, (n - 1) as nat);
        lemma_sweep_stays_inside(grid, n - 1);
        let (vx, vy) = sweep_position(grid, n - 1);
        let v = grid.index(vx, vy);
        assert(v == sweep_slot(grid, n - 1));
        assert(before.grid.index(vx, vy) == v);
        let after = sweep(start, n);
        assert(after == visit(before, vx, vy));
        if n - 1 == turn {
            assert(before.grid.cells[i] == grid.cells[i]);
            assert(grid.needs_update(i));
            assert(before.grid.needs_update(i));
            assert(before.grid.index(x, y) == i);
            lemma_falls_into_empty(before, x, y);
            assert(before.grid.index(x, y + 1) == j);
            let moved = before.grid.swap(i, j);
            assert(after.grid == moved.stamp(i));
            assert forall|k: int| 0 <= k < after.grid.cells.len() && k != j implies #[trigger] after.grid.kind_at(
                k,
            ) == CellType::Empty by {
                if k != i {
                    assert(before.grid.kind_at(k) == CellType::Empty);
                } else {
                    assert(before.grid.kind_at(j) == CellType::Empty);
                }
            }
        } else {
            let home = if n - 1 < turn {
                i
            } else {
                j
            };
            if v == home {
                if n - 1 < turn {
                    assert(sweep_slot(grid, turn) == i);
                    lemma_sweep_comes_once(grid, n - 1, turn);
                } else {
                    // The slot below was swept in an earlier row.
                    let below = lemma_sweep_reaches(grid, x, y + 1);
                    assert(sweep_slot(grid, below) == j);
                    lemma_sweep_comes_once(grid, n - 1, below);
                    lemma_sweep_order(grid, x, y, turn, below);
                }
            }
            assert(before.grid.kind_at(v) == CellType::Empty);
            assert(simulate(before, vx, vy) == before);
            assert(after.grid == before.grid || after.grid == before.grid.stamp(v));
            assert forall|k: int| 0 <= k < after.grid.cells.len() && k != home implies #[trigger] after.grid.kind_at(
                k,
            ) == CellType::Empty by {
                assert(before.grid.kind_at(k) == CellType::Empty);
            }
        }
    }
}

/// The sweep comes to the cell below a cell before it comes to the cell.
pub proof fn lemma_sweep_order(grid: Grid, x: int, y: int, turn: int, below: int)
    requires
        grid.wf(),
        grid.contains(x, y),
        grid.contains(x, y + 1),
        0 <= turn < grid.cells.len(),
        0 <= below < grid.cells.len(),
        sweep_position(grid, turn) == (x, y),
        sweep_position(grid, below) == (x, y + 1),
    ensures
        below < turn,
{
    let w = grid.width as int;
    vstd::arithmetic::div_mod::lemma_fundamental_div_mod(turn, w);
    vstd::arithmetic::div_mod::lemma_fundamental_div_mod(below, w);
    let r1 = turn / w;
    let r2 = below / w;
    assert(r2 + 1 == r1);
    assert(w * r2 + w == w * r1) by (nonlinear_arith)
        requires
            r2 + 1 == r1,
    ;
}

/// Free fall: in a settled grid that holds nothing but one cell of a sinking
/// material with an Empty cell below it, the cell is one row further down
/// after a tick, and everything else is still Empty.
pub proof fn lemma_lone_cell_falls(s: Scene, x: int, y: int)
    requires
        s.grid.wf(),
        s.grid.settled(),
        s.grid.contains(x, y),
        s.grid.contains(x, y + 1),
        sinks(s.grid.kind_at(s.grid.index(x, y))),
        alone(s.grid, s.grid.index(x, y)),
    ensures
        advance(s).grid.shaped_like(s.grid.bump()),
        advance(s).grid.cells[s.grid.index(x, y + 1)] == advance(s).grid.stamped(
            s.grid.cells[s.grid.index(x, y)],
        ),
        alone(advance(s).grid, s.grid.index(x, y + 1)),
{
    let start = scene(s.grid.bump(), s.draws);
    assert forall|k: int| 0 <= k < start.grid.cells.len() implies #[trigger] start.grid.needs_update(
        k,
    ) by {
        assert(!s.grid.needs_update(k));
    }
    assert forall|k: int| 0 <= k < start.grid.cells.len() && k != start.grid.index(
        x,
        y,
    ) implies #[trigger] start.grid.kind_at(k) == CellType::Empty by {
        assert(s.grid.kind_at(k) == CellType::Empty);
    }
    let turn = lemma_sweep_reaches(start.grid, x, y);
    lemma_sweep_drops(start, x, y, turn, s.grid.cells.len());
}

} // verus!
