//! The block scheduler: the grid is cut into blocks of two by two cells, and
//! each block is rewritten by the first rule of a table that matches it. The
//! blocks shift by one cell from one generation to the next.
use crate::cells::{Cell, CellType};
use crate::random::{hits, Draws, RandomSource};
use crate::space::{scene, Grid, Scene, Space};
use vstd::prelude::*;

verus! {

/// What a rule asks of one cell of a block.
#[derive(Copy, Clone, Debug, PartialEq, Eq, Structural)]
pub enum MatchCell {
    /// The cell holds exactly this material.
    Exact(CellType),
    /// Any cell will do.
    Any,
}

/// What a rule does to one cell of a block.
#[derive(Copy, Clone, Debug, PartialEq, Eq, Structural)]
pub enum ModifyCell {
    /// The cell stays as it is.
    Same,
    /// The cell becomes this material; its temperature stays.
    Type(CellType),
}

impl MatchCell {
    /// Whether the cell is what the pattern asks for.
    pub open spec fn admits(self, cell: Cell) -> bool {
        match self {
            MatchCell::Exact(kind) => kind == cell.cell_type,
            MatchCell::Any => true,
        }
    }

    /// Whether the cell is what the pattern asks for.
    pub fn match_cell(&self, cell: Cell) -> (matched: bool)
        ensures
            matched == self.admits(cell),
    {
        match self {
            MatchCell::Exact(cell_type) => *cell_type == cell.cell_type,
            MatchCell::Any => true,
        }
    }
}

impl ModifyCell {
    /// The cell after the change.
    pub open spec fn applied(self, cell: Cell) -> Cell {
        match self {
            ModifyCell::Type(kind) => Cell { cell_type: kind, ..cell },
            ModifyCell::Same => cell,
        }
    }

    /// The cell after the change.
    pub fn set_cell(&self, cell: Cell) -> (changed: Cell)
        ensures
            changed == self.applied(cell),
    {
        let mut cell = cell;
        match self {
            ModifyCell::Type(cell_type) => {
                cell.cell_type = *cell_type;
            },
            ModifyCell::Same => {},
        }
        cell
    }
}

/// The mathematical content of a [`CellRule`]. The four cells of a block are
/// numbered row by row: upper left, upper right, lower left, lower right.
pub struct Rule {
    /// Chance, in thousandths, with which each matching cell lets the rule
    /// go on.
    pub chance: u32,
    /// What the rule asks of each cell.
    pub pattern: Seq<MatchCell>,
    /// What the rule does to each cell.
    pub rewrite: Seq<ModifyCell>,
}

/// Whether the rule matches the block, looking at the cells from `k` on, and
/// the draws left afterwards. The cells are taken in order; each one that
/// matches its pattern costs a draw against the rule's chance, and the first
/// cell that fails its pattern or its draw ends the attempt.
pub open spec fn match_from(rule: Rule, block: Seq<Cell>, draws: Draws, k: nat) -> (bool, Draws)
    decreases 4 - k,
{
    if k >= 4 {
        (true, draws)
    } else if !rule.pattern[k as int].admits(block[k as int]) {
        (false, draws)
    } else if !hits(draws.peek(), rule.chance) {
        (false, draws.rest())
    } else {
        match_from(rule, block, draws.rest(), k + 1)
    }
}

/// The block after the rule has rewritten each of its cells.
pub open spec fn rewritten(rule: Rule, block: Seq<Cell>) -> Seq<Cell> {
    Seq::new(4, |k: int| rule.rewrite[k].applied(block[k]))
}

/// The block after the first rule that matches it, from rule `from` on, has
/// rewritten it, with the draws left afterwards; a block that no rule
/// matches stays as it is.
pub open spec fn apply_first(rules: Seq<Rule>, block: Seq<Cell>, draws: Draws, from: nat) -> (
    Seq<Cell>,
    Draws,
)
    decreases rules.len() - from,
{
    if from >= rules.len() {
        (block, draws)
    } else {
        let (matched, rest) = match_from(rules[from as int], block, draws, 0);
        if matched {
            (rewritten(rules[from as int], block), rest)
        } else {
            apply_first(rules, block, rest, from + 1)
        }
    }
}

/// A rule that lets Sand in the cell `from` fall into the Empty cell `to`.
pub open spec fn fall(from: int, to: int) -> Rule {
    Rule {
        chance: 1000,
        pattern: Seq::new(
            4,
            |k: int|
                if k == from {
                    MatchCell::Exact(CellType::Sand)
                } else if k == to {
                    MatchCell::Exact(CellType::Empty)
                } else {
                    MatchCell::Any
                },
        ),
        rewrite: Seq::new(
            4,
            |k: int|
                if k == from {
                    ModifyCell::Type(CellType::Empty)
                } else if k == to {
                    ModifyCell::Type(CellType::Sand)
                } else {
                    ModifyCell::Same
                },
        ),
    }
}

/// A rule that lets Sand in the upper cell `from` slide off the Sand below it
/// into the Empty lower cell `to` beside that.
pub open spec fn slide(from: int, rest: int, to: int) -> Rule {
    Rule {
        chance: 1000,
        pattern: Seq::new(
            4,
            |k: int|
                if k == from || k == rest {
                    MatchCell::Exact(CellType::Sand)
                } else if k == to {
                    MatchCell::Exact(CellType::Empty)
                } else {
                    MatchCell::Any
                },
        ),
        rewrite: Seq::new(
            4,
            |k: int|
                if k == from {
                    ModifyCell::Type(CellType::Empty)
                } else if k == rest || k == to {
                    ModifyCell::Type(CellType::Sand)
                } else {
                    ModifyCell::Same
                },
        ),
    }
}

/// The rule table: Sand falls on the left, falls on the right, slides to the
/// right, slides to the left.
pub open spec fn rule_table() -> Seq<Rule> {
    seq![fall(0, 2), fall(1, 3), slide(0, 2, 3), slide(1, 3, 2)]
}

/// One guarded rewrite of a block of two by two cells.
#[derive(Copy, Clone, Debug)]
pub struct CellRule {
    probability: u32,
    if_nb: [MatchCell; 4],
    then_nb: [ModifyCell; 4],
}

impl View for CellRule {
    type V = Rule;

    closed spec fn view(&self) -> Rule {
        Rule { chance: self.probability, pattern: self.if_nb@, rewrite: self.then_nb@ }
    }
}

impl CellRule {
    /// A rule with the given chance in thousandths, pattern and rewrite.
    pub fn new(probability: u32, if_nb: [MatchCell; 4], then_nb: [ModifyCell; 4]) -> (rule:
        CellRule)
        ensures
            rule@ == (Rule { chance: probability, pattern: if_nb@, rewrite: then_nb@ }),
    {
        CellRule { probability, if_nb, then_nb }
    }

    /// Whether the rule matches the block; each cell that matches its pattern
    /// takes a draw against the rule's chance.
    pub fn match_if(&self, nb: [Cell; 4], rng: &mut RandomSource) -> (matched: bool)
        ensures
            (matched, final(rng)@) == match_from(self@, nb@, old(rng)@, 0),
    {
        let mut k: usize = 0;
        while k < 4
            invariant
                k <= 4,
                match_from(self@, nb@, old(rng)@, 0) == match_from(self@, nb@, rng@, k as nat),
            decreases 4 - k,
        {
            if !(self.if_nb[k].match_cell(nb[k]) && rng.next_chance(self.probability)) {
                return false;
            }
            k += 1;
        }
        true
    }

    /// The block after the rule has rewritten each of its cells.
    pub fn set_then(&self, nb: [Cell; 4]) -> (changed: [Cell; 4])
        ensures
            changed@ == rewritten(self@, nb@),
    {
        let changed = [
            self.then_nb[0].set_cell(nb[0]),
            self.then_nb[1].set_cell(nb[1]),
            self.then_nb[2].set_cell(nb[2]),
            self.then_nb[3].set_cell(nb[3]),
        ];
        assert(changed@ =~= rewritten(self@, nb@));
        changed
    }

    /// The rule table of the block scheduler.
    pub fn table() -> (rules: [CellRule; 4])
        ensures
            rules@.len() == 4,
            forall|k: int| 0 <= k < 4 ==> (#[trigger] rules@[k])@ == rule_table()[k],
    {
        let sand = MatchCell::Exact(CellType::Sand);
        let empty = MatchCell::Exact(CellType::Empty);
        let any = MatchCell::Any;
        let to_sand = ModifyCell::Type(CellType::Sand);
        let to_empty = ModifyCell::Type(CellType::Empty);
        let same = ModifyCell::Same;
        let rules = [
            CellRule::new(1000, [sand, any, empty, any], [to_empty, same, to_sand, same]),
            CellRule::new(1000, [any, sand, any, empty], [same, to_empty, same, to_sand]),
            CellRule::new(1000, [sand, any, sand, empty], [to_empty, same, to_sand, to_sand]),
            CellRule::new(1000, [any, sand, empty, sand], [same, to_empty, to_sand, to_sand]),
        ];
        assert(rules@[0]@.pattern =~= fall(0, 2).pattern);
        assert(rules@[0]@.rewrite =~= fall(0, 2).rewrite);
        assert(rules@[1]@.pattern =~= fall(1, 3).pattern);
        assert(rules@[1]@.rewrite =~= fall(1, 3).rewrite);
        assert(rules@[2]@.pattern =~= slide(0, 2, 3).pattern);
        assert(rules@[2]@.rewrite =~= slide(0, 2, 3).rewrite);
        assert(rules@[3]@.pattern =~= slide(1, 3, 2).pattern);
        assert(rules@[3]@.rewrite =~= slide(1, 3, 2).rewrite);
        rules
    }
}

/// How far the blocks are shifted in the grid's generation: by one cell in
/// odd generations.
pub open spec fn block_shift(grid: Grid) -> int {
    (grid.generation % 2) as int
}

/// How many blocks fit side by side along `extent` cells, the first starting
/// at `shift`.
pub open spec fn blocks_along(extent: int, shift: int) -> int {
    if extent >= shift {
        (extent - shift) / 2
    } else {
        0
    }
}

/// The upper left cell of the `k`-th block, counting the blocks row by row
/// from the top.
pub open spec fn block_origin(grid: Grid, k: int) -> (int, int) {
    let shift = block_shift(grid);
    let columns = blocks_along(grid.width as int, shift);
    (shift + 2 * (k % columns), shift + 2 * (k / columns))
}

/// The four cells of the block whose upper left cell is `(x, y)`, row by row.
pub open spec fn block_at(grid: Grid, x: int, y: int) -> Seq<Cell> {
    seq![
        grid.cells[grid.index(x, y)],
        grid.cells[grid.index(x + 1, y)],
        grid.cells[grid.index(x, y + 1)],
        grid.cells[grid.index(x + 1, y + 1)],
    ]
}

/// The grid with the block whose upper left cell is `(x, y)` replaced, each
/// of its cells marked as handled.
pub open spec fn with_block(grid: Grid, x: int, y: int, block: Seq<Cell>) -> Grid {
    grid.overwrite(grid.index(x, y), block[0]).overwrite(
        grid.index(x + 1, y),
        block[1],
    ).overwrite(grid.index(x, y + 1), block[2]).overwrite(grid.index(x + 1, y + 1), block[3])
}

/// The scene after the block whose upper left cell is `(x, y)` has been
/// rewritten by the first rule of the table that matches it.
pub open spec fn rewrite_block(s: Scene, x: int, y: int) -> Scene {
    let (block, draws) = apply_first(rule_table(), block_at(s.grid, x, y), s.draws, 0);
    scene(with_block(s.grid, x, y, block), draws)
}

/// The scene after the first `n` blocks have been rewritten.
pub open spec fn rewrite_blocks(s: Scene, n: nat) -> Scene
    decreases n,
{
    if n == 0 {
        s
    } else {
        let (x, y) = block_origin(s.grid, n - 1);
        rewrite_block(rewrite_blocks(s, (n - 1) as nat), x, y)
    }
}

/// The scene after one tick: the generation moves on, and every block that
/// lies wholly inside the grid is rewritten once.
pub open spec fn advance(s: Scene) -> Scene {
    let grid = s.grid.bump();
    let shift = block_shift(grid);
    let blocks = blocks_along(grid.width as int, shift) * blocks_along(grid.height as int, shift);
    rewrite_blocks(scene(grid, s.draws), blocks as nat)
}

/// The `k`-th block, for `k` counted as whole rows of blocks and a column,
/// lies wholly inside the grid.
pub proof fn lemma_block_origin(grid: Grid, row: int, column: int)
    requires
        0 <= row < blocks_along(grid.height as int, block_shift(grid)),
        0 <= column < blocks_along(grid.width as int, block_shift(grid)),
    ensures
        block_origin(grid, row * blocks_along(grid.width as int, block_shift(grid)) + column) == (
            block_shift(grid) + 2 * column,
            block_shift(grid) + 2 * row,
        ),
        grid.contains(block_shift(grid) + 2 * column, block_shift(grid) + 2 * row),
        grid.contains(block_shift(grid) + 2 * column + 1, block_shift(grid) + 2 * row + 1),
        0 <= row * blocks_along(grid.width as int, block_shift(grid)) + column,
{
    let columns = blocks_along(grid.width as int, block_shift(grid));
    let k = row * columns + column;
    vstd::arithmetic::div_mod::lemma_fundamental_div_mod_converse(k, columns, row, column);
    assert(0 <= row * columns) by (nonlinear_arith)
        requires
            0 <= row,
            0 <= columns,
    ;
}

/// The scheduler that rewrites the grid block by block.
pub struct CellularSim;

impl CellularSim {
    /// Advances the space by one tick: the generation moves on, and every
    /// block of two by two cells that lies wholly inside the space is
    /// rewritten by the first rule that matches it. Blocks start at even
    /// coordinates in even generations and at odd ones in odd generations.
    pub fn advance(&mut self, space: &mut Space, rng: &mut RandomSource)
        requires
            old(space).wf(),
        ensures
            final(space).wf(),
            final(space)@.shaped_like(old(space)@.bump()),
            scene(final(space)@, final(rng)@) == advance(scene(old(space)@, old(rng)@)),
    {
        space.increment_generation();
        let start: i32 = if space.get_generation() % 2 == 0 {
            0
        } else {
            1
        };
        let width: i32 = space.get_width() as i32;
        let height: i32 = space.get_height() as i32;
        let ghost begin = scene(space@, rng@);
        let ghost columns = blocks_along(width as int, start as int);
        let ghost rows = blocks_along(height as int, start as int);
        let ghost mut row: int = 0;
        let mut y: i32 = start;
        while y < height - 1
            invariant
                start == block_shift(begin.grid),
                0 <= start <= 1,
                width == begin.grid.width,
                height == begin.grid.height,
                columns == blocks_along(width as int, start as int),
                rows == blocks_along(height as int, start as int),
                0 <= row <= rows,
                y == start + 2 * row,
                space.wf(),
                space@.shaped_like(begin.grid),
                scene(space@, rng@) == rewrite_blocks(begin, (row * columns) as nat),
            decreases height - y,
        {
            let ghost mut column: int = 0;
            let mut x: i32 = start;
            while x < width - 1
                invariant
                    start == block_shift(begin.grid),
                    0 <= start <= 1,
                    width == begin.grid.width,
                    height == begin.grid.height,
                    columns == blocks_along(width as int, start as int),
                    rows == blocks_along(height as int, start as int),
                    0 <= row < rows,
                    y == start + 2 * row,
                    0 <= column <= columns,
                    x == start + 2 * column,
                    space.wf(),
                    space@.shaped_like(begin.grid),
                    scene(space@, rng@) == rewrite_blocks(begin, (row * columns + column) as nat),
                decreases width - x,
            {
                proof {
                    lemma_block_origin(begin.grid, row, column);
                }
                let mut square: [Cell; 4] = self.get_neighbourhood(space, x, y);
                let ghost block = square@;
                let ghost draws = rng@;
                let rules: [CellRule; 4] = CellRule::table();
                let mut n: usize = 0;
                let mut done: bool = false;
                while n < 4 && !done
                    invariant
                        n <= 4,
                        rules@.len() == 4,
                        forall|k: int| 0 <= k < 4 ==> (#[trigger] rules@[k])@ == rule_table()[k],
                        !done ==> square@ == block && apply_first(rule_table(), block, draws, 0)
                            == apply_first(rule_table(), block, rng@, n as nat),
                        done ==> (square@, rng@) == apply_first(rule_table(), block, draws, 0),
                    decreases 4 - n + if done { 0int } else { 1 },
                {
                    assert(rules@[n as int]@ == rule_table()[n as int]);
                    if rules[n].match_if(square, rng) {
                        square = rules[n].set_then(square);
                        done = true;
                    } else {
                        n += 1;
                    }
                }
                self.set_neighbourhood(space, x, y, &square);
                x += 2;
                proof {
                    column = column + 1;
                }
            }
            y += 2;
            proof {
                assert(column == columns);
                assert(row * columns + columns == (row + 1) * columns) by (nonlinear_arith);
                row = row + 1;
            }
        }
        assert(row == rows);
        assert(row * columns == columns * rows) by (nonlinear_arith)
            requires
                row == rows,
        ;
    }

    /// The four cells of the block whose upper left cell is `(x, y)`, row by
    /// row.
    pub fn get_neighbourhood(&self, space: &Space, x: i32, y: i32) -> (square: [Cell; 4])
        requires
            space.wf(),
            space@.contains(x as int, y as int),
            space@.contains(x + 1, y + 1),
        ensures
            square@ == block_at(space@, x as int, y as int),
    {
        let cell1a: Cell = space.cell_at(space.get_index(x as u32, y as u32));
        let cell1b: Cell = space.cell_at(space.get_index(x as u32 + 1, y as u32));
        let cell2a: Cell = space.cell_at(space.get_index(x as u32, y as u32 + 1));
        let cell2b: Cell = space.cell_at(space.get_index(x as u32 + 1, y as u32 + 1));
        let square = [cell1a, cell1b, cell2a, cell2b];
        assert(square@ =~= block_at(space@, x as int, y as int));
        square
    }

    /// Replaces the block whose upper left cell is `(x, y)` and marks its
    /// four cells as handled.
    pub fn set_neighbourhood(&self, space: &mut Space, x: i32, y: i32, square: &[Cell; 4])
        requires
            old(space).wf(),
            old(space)@.contains(x as int, y as int),
            old(space)@.contains(x + 1, y + 1),
        ensures
            final(space).wf(),
            final(space)@.shaped_like(old(space)@),
            final(space)@ == with_block(old(space)@, x as int, y as int, square@),
    {
        let i: usize = space.get_index(x as u32, y as u32);
        space.set_cell(i, &square[0]);
        let i: usize = space.get_index(x as u32 + 1, y as u32);
        space.set_cell(i, &square[1]);
        let i: usize = space.get_index(x as u32, y as u32 + 1);
        space.set_cell(i, &square[2]);
        let i: usize = space.get_index(x as u32 + 1, y as u32 + 1);
        space.set_cell(i, &square[3]);
    }
}

} // verus!
