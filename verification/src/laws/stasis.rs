//! Stasis: a grid of materials that never act is the same after any number
//! of ticks, but for the generation and the stamps.
use crate::cells::{Cell, CellType};
use crate::cellular::{
    apply_first, block_at, block_origin, block_shift, blocks_along, lemma_block_origin,
    match_from, rewrite_block, rewrite_blocks, rule_table, with_block, MatchCell,
};
use crate::laws::stamps::{lemma_advance_settles, lemma_sweep_stays_inside};
use crate::random::Draws;
use crate::space::{lemma_index_in_range, scene, Grid, Scene};
use crate::swapping::{advance, simulate, sweep, sweep_position, ticks};
use vstd::prelude::*;

verus! {

/// The materials that never act: Empty, Rock and Wood.
pub open spec fn is_inert(kind: CellType) -> bool {
    kind == CellType::Empty || kind == CellType::Rock || kind == CellType::Wood
}

/// Whether every cell of the grid holds a material that never acts.
pub open spec fn all_inert(grid: Grid) -> bool {
    forall|i: int| 0 <= i < grid.cells.len() ==> is_inert(#[trigger] grid.kind_at(i))
}

/// Whether `after` is `before` with every cell marked as handled: the same
/// size, and in every slot the same material at the same temperature.
pub open spec fn only_stamped(before: Grid, after: Grid) -> bool {
    &&& after.width == before.width
    &&& after.height == before.height
    &&& after.cells.len() == before.cells.len()
    &&& forall|i: int|
        0 <= i < before.cells.len() ==> #[trigger] after.cells[i] == (Cell {
            generation: after.generation,
            ..before.cells[i]
        })
}

/// The generation counter after `n` more ticks.
pub open spec fn generation_after(generation: u8, n: nat) -> u8 {
    ((generation + n) % 256) as u8
}

/// While the sweep goes over a grid of materials that never act, nothing
/// changes but the stamps, and no draw is taken.
pub proof fn lemma_sweep_inert(s: Scene, n: nat)
    requires
        s.grid.wf(),
        all_inert(s.grid),
        n <= s.grid.cells.len(),
    ensures
        sweep(s, n).draws == s.draws,
        sweep(s, n).grid.shaped_like(s.grid),
        forall|i: int|
            0 <= i < s.grid.cells.len() ==> {
                &&& (#[trigger] sweep(s, n).grid.cells[i]).cell_type == s.grid.cells[i].cell_type
                &&& sweep(s, n).grid.cells[i].temp == s.grid.cells[i].temp
            },
    decreases n,
{
    if n > 0 {
        let before = sweep(s, (n - 1) as nat);
        lemma_sweep_inert(s, (n - 1) as nat);
        lemma_sweep_stays_inside(s.grid, n - 1);
        let (x, y) = sweep_position(s.grid, n - 1);
        let i = before.grid.index(x, y);
        assert(is_inert(s.grid.kind_at(i)));
        assert(before.grid.cells[i].cell_type == s.grid.cells[i].cell_type);
        assert(simulate(before, x, y) == before);
    }
}

/// A grid that holds nothing but Empty, Rock and Wood is the same after a
/// tick, but for the generation and the stamps: every material stays where
/// it is, at its temperature, and no draw is taken.
pub proof fn lemma_inert_tick(s: Scene)
    requires
        s.grid.wf(),
        all_inert(s.grid),
    ensures
        advance(s).draws == s.draws,
        advance(s).grid.generation == generation_after(s.grid.generation, 1),
        only_stamped(s.grid, advance(s).grid),
        all_inert(advance(s).grid),
        advance(s).grid.wf(),
{
    let start = scene(s.grid.bump(), s.draws);
    assert forall|i: int| 0 <= i < start.grid.cells.len() implies is_inert(
        #[trigger] start.grid.kind_at(i),
    ) by {
        assert(is_inert(s.grid.kind_at(i)));
    }
    lemma_sweep_inert(start, s.grid.cells.len());
    lemma_advance_settles(s);
    let after = advance(s).grid;
    assert forall|i: int| 0 <= i < s.grid.cells.len() implies #[trigger] after.cells[i] == (Cell {
        generation: after.generation,
        ..s.grid.cells[i]
    }) by {
        assert(!after.needs_update(i));
    }
    assert forall|i: int| 0 <= i < after.cells.len() implies is_inert(
        #[trigger] after.kind_at(i),
    ) by {
        assert(is_inert(s.grid.kind_at(i)));
        assert(after.cells[i].cell_type == s.grid.cells[i].cell_type);
    }
}

/// Stasis: a grid that holds nothing but Empty, Rock and Wood is the same
/// after any number of ticks, but for the generation and the stamps.
pub proof fn lemma_stasis(s: Scene, n: nat)
    requires
        s.grid.wf(),
        all_inert(s.grid),
        n > 0,
    ensures
        ticks(s, n).draws == s.draws,
        ticks(s, n).grid.generation == generation_after(s.grid.generation, n),
        only_stamped(s.grid, ticks(s, n).grid),
        all_inert(ticks(s, n).grid),
        ticks(s, n).grid.wf(),
    decreases n,
{
    if n == 1 {
        assert(ticks(s, 1) == advance(ticks(s, 0)));
        lemma_inert_tick(s);
    } else {
        let before = ticks(s, (n - 1) as nat);
        lemma_stasis(s, (n - 1) as nat);
        lemma_inert_tick(before);
        let after = ticks(s, n).grid;
        assert forall|i: int| 0 <= i < s.grid.cells.len() implies #[trigger] after.cells[i] == (Cell {
            generation: after.generation,
            ..s.grid.cells[i]
        }) by {
            assert(after.cells[i] == (Cell {
                generation: after.generation,
                ..before.grid.cells[i]
            }));
            assert(before.grid.cells[i] == (Cell {
                generation: before.grid.generation,
                ..s.grid.cells[i]
            }));
        }
    }
}

/// Whether `after` holds, slot for slot, the materials of `before` at their
/// temperatures, in a grid of the same size.
pub open spec fn same_matter(before: Grid, after: Grid) -> bool {
    &&& after.width == before.width
    &&& after.height == before.height
    &&& after.cells.len() == before.cells.len()
    &&& forall|i: int|
        0 <= i < before.cells.len() ==> (#[trigger] after.cells[i]).cell_type
            == before.cells[i].cell_type && after.cells[i].temp == before.cells[i].temp
}

/// Whether no cell of the grid holds Sand.
pub open spec fn no_sand(grid: Grid) -> bool {
    forall|i: int| 0 <= i < grid.cells.len() ==> #[trigger] grid.kind_at(i) != CellType::Sand
}

/// The scene after `n` ticks of the block scheduler.
pub open spec fn block_ticks(s: Scene, n: nat) -> Scene
    decreases n,
{
    if n == 0 {
        s
    } else {
        crate::cellular::advance(block_ticks(s, (n - 1) as nat))
    }
}

/// Every rule of the table asks for Sand: a block without Sand is left as it
/// is, whatever the draws.
pub proof fn lemma_rules_need_sand(block: Seq<Cell>, draws: Draws, from: nat)
    requires
        block.len() == 4,
        forall|k: int| 0 <= k < 4 ==> (#[trigger] block[k]).cell_type != CellType::Sand,
    ensures
        apply_first(rule_table(), block, draws, from).0 == block,
    decreases rule_table().len() - from,
{
    let rules = rule_table();
    assert(rules.len() == 4);
    if from < rules.len() {
        let rule = rules[from as int];
        if from == 0 || from == 2 {
            // The upper left cell must be Sand.
            assert(rule.pattern[0] == MatchCell::Exact(CellType::Sand));
            assert(!rule.pattern[0].admits(block[0]));
        } else {
            // The upper right cell must be Sand.
            assert(rule.pattern[1] == MatchCell::Exact(CellType::Sand));
            assert(!rule.pattern[1].admits(block[1]));
            assert(!match_from(rule, block, draws.rest(), 1).0);
        }
        assert(!match_from(rule, block, draws, 0).0);
        lemma_rules_need_sand(block, match_from(rule, block, draws, 0).1, from + 1);
    }
}

/// The block scheduler leaves a block without Sand as it is, but for the
/// stamps.
pub proof fn lemma_block_without_sand(s: Scene, x: int, y: int)
    requires
        s.grid.wf(),
        s.grid.contains(x, y),
        s.grid.contains(x + 1, y + 1),
        no_sand(s.grid),
    ensures
        same_matter(s.grid, rewrite_block(s, x, y).grid),
        rewrite_block(s, x, y).grid.shaped_like(s.grid),
        no_sand(rewrite_block(s, x, y).grid),
{
    let grid = s.grid;
    lemma_index_in_range(grid, x, y);
    lemma_index_in_range(grid, x + 1, y);
    lemma_index_in_range(grid, x, y + 1);
    lemma_index_in_range(grid, x + 1, y + 1);
    let block = block_at(grid, x, y);
    assert forall|k: int| 0 <= k < 4 implies (#[trigger] block[k]).cell_type
        != CellType::Sand by {
        assert(grid.kind_at(grid.index(x, y)) != CellType::Sand);
        assert(grid.kind_at(grid.index(x + 1, y)) != CellType::Sand);
        assert(grid.kind_at(grid.index(x, y + 1)) != CellType::Sand);
        assert(grid.kind_at(grid.index(x + 1, y + 1)) != CellType::Sand);
    }
    lemma_rules_need_sand(block, s.draws, 0);
    let after = with_block(grid, x, y, block);
    assert(rewrite_block(s, x, y).grid == after);
    assert forall|i: int| 0 <= i < after.cells.len() implies #[trigger] after.kind_at(i)
        != CellType::Sand by {
        assert(grid.kind_at(i) != CellType::Sand);
    }
}

/// While the block scheduler goes over a grid without Sand, every material
/// stays where it is, at its temperature.
pub proof fn lemma_blocks_without_sand(s: Scene, n: nat)
    requires
        s.grid.wf(),
        no_sand(s.grid),
        n <= blocks_along(s.grid.width as int, block_shift(s.grid)) * blocks_along(
            s.grid.height as int,
            block_shift(s.grid),
        ),
    ensures
        same_matter(s.grid, rewrite_blocks(s, n).grid),
        rewrite_blocks(s, n).grid.shaped_like(s.grid),
        no_sand(rewrite_blocks(s, n).grid),
    decreases n,
{
    if n > 0 {
        let columns = blocks_along(s.grid.width as int, block_shift(s.grid));
        let rows = blocks_along(s.grid.height as int, block_shift(s.grid));
        assert(columns > 0 && rows > 0) by (nonlinear_arith)
            requires
                0 < n <= columns * rows,
                0 <= columns,
                0 <= rows,
        ;
        let row = (n - 1) / columns;
        let column = (n - 1) % columns;
        vstd::arithmetic::div_mod::lemma_fundamental_div_mod(n - 1, columns);
        assert(0 <= row < rows) by (nonlinear_arith)
            requires
                n - 1 == columns * row + column,
                0 <= column < columns,
                0 <= n - 1 < columns * rows,
        ;
        assert(columns * row == row * columns) by (nonlinear_arith);
        lemma_block_origin(s.grid, row, column);
        lemma_blocks_without_sand(s, (n - 1) as nat);
        let before = rewrite_blocks(s, (n - 1) as nat);
        let (x, y) = block_origin(s.grid, n - 1);
        lemma_block_without_sand(before, x, y);
        let after = rewrite_blocks(s, n).grid;
        assert forall|i: int| 0 <= i < s.grid.cells.len() implies (#[trigger] after.cells[i]).cell_type
            == s.grid.cells[i].cell_type && after.cells[i].temp == s.grid.cells[i].temp by {
            assert(before.grid.cells[i].cell_type == s.grid.cells[i].cell_type);
        }
    }
}

/// Stasis under the block scheduler: a grid without Sand, and so a grid of
/// nothing but Rock and Empty, holds the same materials at the same
/// temperatures after any number of ticks.
pub proof fn lemma_block_stasis(s: Scene, n: nat)
    requires
        s.grid.wf(),
        no_sand(s.grid),
    ensures
        same_matter(s.grid, block_ticks(s, n).grid),
        block_ticks(s, n).grid.generation == generation_after(s.grid.generation, n),
        block_ticks(s, n).grid.wf(),
        no_sand(block_ticks(s, n).grid),
    decreases n,
{
    if n > 0 {
        lemma_block_stasis(s, (n - 1) as nat);
        let before = block_ticks(s, (n - 1) as nat);
        let start = scene(before.grid.bump(), before.draws);
        assert forall|i: int| 0 <= i < start.grid.cells.len() implies #[trigger] start.grid.kind_at(
            i,
        ) != CellType::Sand by {
            assert(before.grid.kind_at(i) != CellType::Sand);
        }
        let blocks = blocks_along(start.grid.width as int, block_shift(start.grid)) * blocks_along(
            start.grid.height as int,
            block_shift(start.grid),
        );
        assert(blocks >= 0) by (nonlinear_arith)
            requires
                blocks == blocks_along(start.grid.width as int, block_shift(start.grid))
                    * blocks_along(start.grid.height as int, block_shift(start.grid)),
                blocks_along(start.grid.width as int, block_shift(start.grid)) >= 0,
                blocks_along(start.grid.height as int, block_shift(start.grid)) >= 0,
        ;
        lemma_blocks_without_sand(start, blocks as nat);
        let after = block_ticks(s, n).grid;
        assert(after == rewrite_blocks(start, blocks as nat).grid);
        assert forall|i: int| 0 <= i < s.grid.cells.len() implies (#[trigger] after.cells[i]).cell_type
            == s.grid.cells[i].cell_type && after.cells[i].temp == s.grid.cells[i].temp by {
            assert(start.grid.cells[i] == before.grid.cells[i]);
            assert(before.grid.cells[i].cell_type == s.grid.cells[i].cell_type);
        }
    }
}

} // verus!
