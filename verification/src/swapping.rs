//! The row-sweep scheduler: every cell that has not been handled in the
//! current generation acts once, by the rule of its material, and a cell that
//! moves displaces a lighter neighbour by exchanging places with it.
use crate::cells::{
    density_of, init_cell, is_dissolvable, is_flammable, Cell, CellType, CellTypeProperties,
};
use crate::laws::stamps::lemma_advance_settles;
use crate::random::{drift, hits, scaled, side, RandomSource};
use crate::space::{scene, Grid, Scene, Space};
use vstd::prelude::*;

verus! {

/// Chance, in thousandths, that Acid dissolves one dissolvable neighbour.
pub const DISSOLVE_CHANCE: u32 = 5;

/// Chance, in thousandths, that a burning cell ignites one flammable
/// neighbour.
pub const IGNITE_CHANCE: u32 = 500;

/// Chance, in thousandths, that a hot Fire cell throws off a new flame.
pub const SPAWN_CHANCE: u32 = 400;

/// Chance, in thousandths, that a Fire cell also moves like a gas.
pub const RISE_CHANCE: u32 = 250;

/// A burning cell cools by less than this much in one tick.
pub const COOLING_SPAN: u32 = 5;

/// Below this temperature Fire goes out and Lava sets to Rock.
pub const COLD_TEMP: i32 = 10;

/// Above this temperature Fire can throw off a new flame.
pub const SPAWN_TEMP: i32 = 300;

/// Whether a cell of material `source` may move into the place of a cell of
/// material `dest`: only a denser material displaces a lighter one.
pub open spec fn can_displace(source: CellType, dest: CellType) -> bool {
    density_of(source) > density_of(dest)
}

/// The grid after the cell in slot `i` has tried the targets from position
/// `from` on, in order: it moves to the first target that lies inside the grid
/// and holds a lighter material, and stays where none does.
pub open spec fn first_fit(grid: Grid, i: int, targets: Seq<(int, int)>, from: nat) -> Grid
    decreases targets.len() - from,
{
    if from >= targets.len() {
        grid
    } else {
        let (x, y) = targets[from as int];
        match grid.slot(x, y) {
            Some(j) if can_displace(grid.kind_at(i), grid.kind_at(j)) => grid.swap(i, j),
            _ => first_fit(grid, i, targets, from + 1),
        }
    }
}

/// Where a granular cell at `(x, y)` tries to go: straight down, then down to
/// the side `d`.
pub open spec fn granular_targets(x: int, y: int, d: int) -> Seq<(int, int)> {
    seq![(x, y + 1), (x + d, y + 1)]
}

/// Where a liquid cell at `(x, y)` tries to go: straight down, down to the
/// side `d`, down to the other side, level to the side `d`, level to the
/// other side.
pub open spec fn liquid_targets(x: int, y: int, d: int) -> Seq<(int, int)> {
    seq![(x, y + 1), (x + d, y + 1), (x - d, y + 1), (x + d, y), (x - d, y)]
}

/// Where a flame at `(x, y)` tries to throw a new flame: the four diagonal
/// neighbours, starting with the one towards `(dx, dy)`.
pub open spec fn spawn_targets(x: int, y: int, dx: int, dy: int) -> Seq<(int, int)> {
    seq![(x + dx, y + dy), (x - dx, y + dy), (x + dx, y - dy), (x - dx, y - dy)]
}

/// The scene after the granular cell at `(x, y)` has moved: one draw picks
/// the side.
pub open spec fn move_granular(s: Scene, x: int, y: int) -> Scene {
    let d = side(s.draws.peek());
    scene(first_fit(s.grid, s.grid.index(x, y), granular_targets(x, y, d), 0), s.draws.rest())
}

/// The scene after the liquid cell at `(x, y)` has moved: one draw picks the
/// side it prefers.
pub open spec fn move_liquid(s: Scene, x: int, y: int) -> Scene {
    let d = side(s.draws.peek());
    scene(first_fit(s.grid, s.grid.index(x, y), liquid_targets(x, y, d), 0), s.draws.rest())
}

/// The scene after the gas cell at `(x, y)` has moved: two draws pick one
/// neighbouring place, or the cell's own, and the cell tries only that.
pub open spec fn move_gas(s: Scene, x: int, y: int) -> Scene {
    let dx = drift(s.draws.peek());
    let dy = drift(s.draws.rest().peek());
    scene(
        first_fit(s.grid, s.grid.index(x, y), seq![(x + dx, y + dy)], 0),
        s.draws.rest().rest(),
    )
}

/// The first of the targets, from position `from` on, that lies inside the
/// grid and is Empty.
pub open spec fn first_empty(grid: Grid, targets: Seq<(int, int)>, from: nat) -> Option<int>
    decreases targets.len() - from,
{
    if from >= targets.len() {
        None
    } else {
        let (x, y) = targets[from as int];
        match grid.slot(x, y) {
            Some(j) if grid.kind_at(j) == CellType::Empty => Some(j),
            _ => first_empty(grid, targets, from + 1),
        }
    }
}

/// The scene after the flame at `(x, y)` has thrown off a copy of `cell`: two
/// draws pick the diagonal it tries first, and the copy lands, marked as
/// handled, in the first diagonal neighbour that is Empty, if there is one.
pub open spec fn spawn_new(s: Scene, x: int, y: int, cell: Cell) -> Scene {
    let dx = side(s.draws.peek());
    let dy = side(s.draws.rest().peek());
    let grid = match first_empty(s.grid, spawn_targets(x, y, dx, dy), 0) {
        Some(j) => s.grid.overwrite(j, cell),
        None => s.grid,
    };
    scene(grid, s.draws.rest().rest())
}

/// The offset of the `k`-th place of the square of three by three around a
/// cell, column by column; the fifth, `k == 4`, is the cell's own.
pub open spec fn around(k: int) -> (int, int) {
    (k / 3 - 1, k % 3 - 1)
}

/// The slots of the neighbours of `(x, y)` among the first `k` places around
/// it, in scan order: the cell's own place and places off the grid are left
/// out.
pub open spec fn neighbours_upto(grid: Grid, x: int, y: int, k: nat) -> Seq<int>
    decreases k,
{
    if k == 0 {
        Seq::empty()
    } else {
        let before = neighbours_upto(grid, x, y, (k - 1) as nat);
        let (dx, dy) = around(k - 1);
        match grid.slot(x + dx, y + dy) {
            Some(j) if k - 1 != 4 => before.push(j),
            _ => before,
        }
    }
}

/// The slots of the up to eight neighbours of `(x, y)`, in scan order.
pub open spec fn neighbours(grid: Grid, x: int, y: int) -> Seq<int> {
    neighbours_upto(grid, x, y, 9)
}

/// The scene after a burning cell has reached for the neighbour in slot `j`:
/// a neighbour that does not burn costs no draw; one that burns costs a draw,
/// and catches fire where the draw hits, at a freshly drawn temperature.
pub open spec fn ignite_one(s: Scene, j: int) -> Scene {
    if !is_flammable(s.grid.kind_at(j)) {
        s
    } else if !hits(s.draws.peek(), IGNITE_CHANCE) {
        scene(s.grid, s.draws.rest())
    } else {
        let (cell, draws) = init_cell(s.grid.cells[j], CellType::Fire, s.draws.rest());
        scene(s.grid.put(j, cell), draws)
    }
}

/// The scene after a burning cell has reached for the first `k` of the given
/// slots.
pub open spec fn ignite_upto(s: Scene, slots: Seq<int>, k: nat) -> Scene
    decreases k,
{
    if k == 0 {
        s
    } else {
        ignite_one(ignite_upto(s, slots, (k - 1) as nat), slots[k - 1])
    }
}

/// The scene after a burning cell at `(x, y)` has reached for each of its
/// neighbours.
pub open spec fn ignite_neighbours(s: Scene, x: int, y: int) -> Scene {
    let slots = neighbours(s.grid, x, y);
    ignite_upto(s, slots, slots.len())
}

/// Acid at work: the scene so far, and whether anything has been dissolved.
pub struct Corrosion {
    pub scene: Scene,
    pub spent: bool,
}

/// Acid reaching for the neighbour in slot `j`: a neighbour that does not
/// dissolve costs no draw; one that dissolves costs a draw, and becomes Empty
/// where the draw hits.
pub open spec fn dissolve_one(c: Corrosion, j: int) -> Corrosion {
    let s = c.scene;
    if !is_dissolvable(s.grid.kind_at(j)) {
        c
    } else if !hits(s.draws.peek(), DISSOLVE_CHANCE) {
        Corrosion { scene: scene(s.grid, s.draws.rest()), spent: c.spent }
    } else {
        let (cell, draws) = init_cell(s.grid.cells[j], CellType::Empty, s.draws.rest());
        Corrosion { scene: scene(s.grid.put(j, cell), draws), spent: true }
    }
}

/// Acid after it has reached for the first `k` of the given slots.
pub open spec fn dissolve_upto(s: Scene, slots: Seq<int>, k: nat) -> Corrosion
    decreases k,
{
    if k == 0 {
        Corrosion { scene: s, spent: false }
    } else {
        dissolve_one(dissolve_upto(s, slots, (k - 1) as nat), slots[k - 1])
    }
}

/// Acid at `(x, y)` after it has reached for each of its neighbours.
pub open spec fn dissolve_neighbours(s: Scene, x: int, y: int) -> Corrosion {
    let slots = neighbours(s.grid, x, y);
    dissolve_upto(s, slots, slots.len())
}

/// The temperature of a burning cell after it has cooled by the amount that
/// the draw selects; it stops at the lowest temperature a cell can hold.
pub open spec fn cooled(temp: i32, draw: u32) -> int {
    let t = temp - scaled(draw, COOLING_SPAN);
    if t < i32::MIN {
        i32::MIN as int
    } else {
        t
    }
}

/// The temperature that a Fire cell keeps when it throws off a new flame:
/// three fifths of what it had.
pub open spec fn split_temp(temp: i32) -> int {
    (temp * 3) / 5
}

/// The scene after the Acid cell at `(x, y)` has acted: it reaches for its
/// neighbours; where it dissolved any, it is used up and becomes Empty, and
/// where it dissolved none, it moves as a liquid.
pub open spec fn act_acid(s: Scene, x: int, y: int) -> Scene {
    let i = s.grid.index(x, y);
    let c = dissolve_neighbours(s, x, y);
    if c.spent {
        let (cell, draws) = init_cell(c.scene.grid.cells[i], CellType::Empty, c.scene.draws);
        scene(c.scene.grid.put(i, cell), draws)
    } else {
        move_liquid(c.scene, x, y)
    }
}

/// The scene after the Lava cell at `(x, y)` has cooled and, while still
/// Lava, reached for its neighbours to ignite them: below [`COLD_TEMP`] it
/// sets to Rock for good and ignites nothing.
pub open spec fn cool_lava(s: Scene, x: int, y: int) -> Scene {
    let i = s.grid.index(x, y);
    let cell = s.grid.cells[i];
    let temp = cooled(cell.temp, s.draws.peek()) as i32;
    let set = temp < COLD_TEMP;
    let now = Cell {
        cell_type: if set {
            CellType::Rock
        } else {
            CellType::Lava
        },
        temp,
        ..cell
    };
    let s1 = scene(s.grid.put(i, now), s.draws.rest());
    if set {
        s1
    } else {
        ignite_neighbours(s1, x, y)
    }
}

/// The scene after the Lava cell at `(x, y)` has acted: it cools, sets to
/// Rock when cold, ignites neighbours while molten, and in either case then
/// moves as a liquid.
pub open spec fn act_lava(s: Scene, x: int, y: int) -> Scene {
    move_liquid(cool_lava(s, x, y), x, y)
}

/// The Fire cell after it has cooled by the amount that the draw selects:
/// below [`COLD_TEMP`] it goes out, and is Empty at temperature 0.
pub open spec fn burn_down(cell: Cell, draw: u32) -> Cell {
    let temp = cooled(cell.temp, draw) as i32;
    if temp < COLD_TEMP {
        Cell { cell_type: CellType::Empty, temp: 0, ..cell }
    } else {
        Cell { temp, ..cell }
    }
}

/// The scene after the cooled Fire cell `cell` at `(x, y)` has had its chance
/// to throw off a new flame: above [`SPAWN_TEMP`] it takes a draw, and where
/// the draw hits it keeps three fifths of its temperature and throws off a
/// copy of itself. The cell is written back in either case.
pub open spec fn flare(s: Scene, x: int, y: int, cell: Cell) -> Scene {
    let i = s.grid.index(x, y);
    if cell.temp > SPAWN_TEMP {
        if hits(s.draws.peek(), SPAWN_CHANCE) {
            let split = Cell { temp: split_temp(cell.temp) as i32, ..cell };
            spawn_new(scene(s.grid.put(i, split), s.draws.rest()), x, y, split)
        } else {
            scene(s.grid.put(i, cell), s.draws.rest())
        }
    } else {
        scene(s.grid.put(i, cell), s.draws)
    }
}

/// The scene after a Fire cell, or what is left of it, has had its chance to
/// move like a gas: one draw decides whether it tries.
pub open spec fn rise(s: Scene, x: int, y: int) -> Scene {
    let after = scene(s.grid, s.draws.rest());
    if hits(s.draws.peek(), RISE_CHANCE) {
        move_gas(after, x, y)
    } else {
        after
    }
}

/// The scene after the Fire cell at `(x, y)` has cooled, had its chance to
/// throw off a new flame and, while still burning, reached for its
/// neighbours to ignite them.
pub open spec fn burn(s: Scene, x: int, y: int) -> Scene {
    let i = s.grid.index(x, y);
    let cell = burn_down(s.grid.cells[i], s.draws.peek());
    let s1 = flare(scene(s.grid, s.draws.rest()), x, y, cell);
    if cell.cell_type == CellType::Fire {
        ignite_neighbours(s1, x, y)
    } else {
        s1
    }
}

/// The scene after the Fire cell at `(x, y)` has acted: it cools and may go
/// out; while hot enough it may throw off a new flame; while still burning it
/// reaches for its neighbours to ignite them; and it may move like a gas.
pub open spec fn act_fire(s: Scene, x: int, y: int) -> Scene {
    rise(burn(s, x, y), x, y)
}

/// The scene after the cell at `(x, y)` has acted by the rule of its
/// material.
pub open spec fn simulate(s: Scene, x: int, y: int) -> Scene {
    match s.grid.kind_at(s.grid.index(x, y)) {
        CellType::Empty | CellType::Rock | CellType::Wood => s,
        CellType::Sand | CellType::Gunpowder => move_granular(s, x, y),
        CellType::Water | CellType::Oil => move_liquid(s, x, y),
        CellType::Propane => move_gas(s, x, y),
        CellType::Acid => act_acid(s, x, y),
        CellType::Lava => act_lava(s, x, y),
        CellType::Fire => act_fire(s, x, y),
    }
}

/// The scene after the sweep has come to the cell at `(x, y)`: a cell that
/// was handled in the current generation is passed over; any other acts, and
/// its slot is then marked as handled.
pub open spec fn visit(s: Scene, x: int, y: int) -> Scene {
    let i = s.grid.index(x, y);
    if s.grid.needs_update(i) {
        let after = simulate(s, x, y);
        scene(after.grid.stamp(i), after.draws)
    } else {
        s
    }
}

/// The cell that the sweep comes to in `k`-th place: rows from the bottom up,
/// rows with an even `y` from left to right and the others from right to
/// left.
pub open spec fn sweep_position(grid: Grid, k: int) -> (int, int) {
    let y = grid.height - 1 - k / (grid.width as int);
    let column = k % (grid.width as int);
    (
        if y % 2 == 0 {
            column
        } else {
            grid.width - 1 - column
        },
        y,
    )
}

/// The scene after the sweep has come to the first `n` cells.
pub open spec fn sweep(s: Scene, n: nat) -> Scene
    decreases n,
{
    if n == 0 {
        s
    } else {
        let before = sweep(s, (n - 1) as nat);
        let (x, y) = sweep_position(s.grid, n - 1);
        visit(before, x, y)
    }
}

/// The scene after one tick: the generation moves on, and the sweep comes to
/// every cell once.
pub open spec fn advance(s: Scene) -> Scene {
    sweep(scene(s.grid.bump(), s.draws), s.grid.cells.len())
}

/// The scene after `n` ticks.
pub open spec fn ticks(s: Scene, n: nat) -> Scene
    decreases n,
{
    if n == 0 {
        s
    } else {
        advance(ticks(s, (n - 1) as nat))
    }
}

/// The `k`-th cell of the sweep, for `k` counted as whole rows and a column.
pub proof fn lemma_sweep_position(grid: Grid, rows: int, column: int)
    requires
        0 <= rows < grid.height,
        0 <= column < grid.width,
    ensures
        sweep_position(grid, rows * grid.width + column).1 == grid.height - 1 - rows,
        sweep_position(grid, rows * grid.width + column).0 == if (grid.height - 1 - rows) % 2
            == 0 {
            column
        } else {
            grid.width - 1 - column
        },
        grid.contains(
            sweep_position(grid, rows * grid.width + column).0,
            sweep_position(grid, rows * grid.width + column).1,
        ),
        0 <= rows * grid.width + column < grid.width * grid.height,
{
    let w = grid.width as int;
    let k = rows * w + column;
    vstd::arithmetic::div_mod::lemma_fundamental_div_mod_converse(k, w, rows, column);
    assert(0 <= rows * w && rows * w + w <= w * grid.height) by (nonlinear_arith)
        requires
            0 <= rows < grid.height,
            0 <= w,
    ;
}

/// The targets of a move as mathematical coordinates.
pub open spec fn as_targets(list: Seq<(i32, i32)>) -> Seq<(int, int)> {
    Seq::new(list.len(), |k: int| (list[k].0 as int, list[k].1 as int))
}

/// Whether the slots are those of the given sequence, one for one.
pub open spec fn same_slots(slots: Seq<usize>, expected: Seq<int>) -> bool {
    &&& slots.len() == expected.len()
    &&& forall|k: int| 0 <= k < slots.len() ==> #[trigger] slots[k] as int == expected[k]
}

/// The step along one axis that the next draw selects for a gas: `1`, `-1` or
/// `0`, each for one third of the unit interval.
pub fn random_modifier(rng: &mut RandomSource) -> (step: i32)
    ensures
        step == drift(old(rng)@.peek()),
        final(rng)@ == old(rng)@.rest(),
{
    let third: u32 = rng.next_below(3);
    if third == 0 {
        1
    } else if third == 1 {
        -1
    } else {
        0
    }
}

/// The scheduler that sweeps the grid row by row and moves cells by exchange.
pub struct SwappingSim;

impl SwappingSim {
    /// Whether a material with properties `source` may displace one with
    /// properties `dest`: only where it is denser.
    pub fn check_density(source: &CellTypeProperties, dest: &CellTypeProperties) -> (admitted: bool)
        ensures
            admitted == (source.density > dest.density),
    {
        source.density > dest.density
    }

    /// Moves the cell in slot `i` to the first place of the list that lies
    /// inside the space and holds a lighter material; the cell stays where
    /// there is none.
    pub fn check_swap_from_list(&mut self, space: &mut Space, i: usize, list: Vec<(i32, i32)>)
        requires
            old(space).wf(),
            i < old(space)@.cells.len(),
        ensures
            final(space).wf(),
            final(space)@ == first_fit(old(space)@, i as int, as_targets(list@), 0),
            final(space)@.shaped_like(old(space)@),
    {
        let ghost grid = space@;
        let ghost targets = as_targets(list@);
        let mut k: usize = 0;
        while k < list.len()
            invariant
                k <= list.len(),
                space.wf(),
                space@ == grid,
                grid == old(space)@,
                i < grid.cells.len(),
                targets == as_targets(list@),
                first_fit(grid, i as int, targets, 0) == first_fit(grid, i as int, targets, k as nat),
            decreases list.len() - k,
        {
            let (x, y) = list[k];
            assert(targets[k as int] == (x as int, y as int));
            if let Some(ni) = space.get_index_checked(x, y) {
                let i_prop = CellType::get_properties(space.get_cell_type_at(i));
                let ni_prop = CellType::get_properties(space.get_cell_type_at(ni));
                if Self::check_density(&i_prop, &ni_prop) {
                    space.swap_cells(i, ni);
                    return ;
                }
            }
            k += 1;
        }
    }

    /// Lets the granular cell at `(x, y)` fall: straight down, or down to a
    /// side that the next draw picks.
    pub fn move_granular(&mut self, space: &mut Space, x: i32, y: i32, rng: &mut RandomSource)
        requires
            old(space).wf(),
            old(space)@.contains(x as int, y as int),
        ensures
            final(space).wf(),
            final(space)@.shaped_like(old(space)@),
            scene(final(space)@, final(rng)@) == move_granular(
                scene(old(space)@, old(rng)@),
                x as int,
                y as int,
            ),
    {
        let i: usize = space.get_index(x as u32, y as u32);
        let d: i32 = rng.next_side();
        let check: Vec<(i32, i32)> = vec![(x, y + 1), (x + d, y + 1)];
        assert(as_targets(check@) =~= granular_targets(x as int, y as int, d as int));
        self.check_swap_from_list(space, i, check);
    }

    /// Lets the liquid cell at `(x, y)` flow: down, down to a side, or level
    /// to a side, preferring the side that the next draw picks.
    pub fn move_liquid(&mut self, space: &mut Space, x: i32, y: i32, rng: &mut RandomSource)
        requires
            old(space).wf(),
            old(space)@.contains(x as int, y as int),
        ensures
            final(space).wf(),
            final(space)@.shaped_like(old(space)@),
            scene(final(space)@, final(rng)@) == move_liquid(
                scene(old(space)@, old(rng)@),
                x as int,
                y as int,
            ),
    {
        let i: usize = space.get_index(x as u32, y as u32);
        let d: i32 = rng.next_side();
        let near: i32 = x + d;
        let far: i32 = x - d;
        let below: i32 = y + 1;
        let check: Vec<(i32, i32)> = vec![(x, below), (near, below), (far, below), (near, y), (far, y)];
        assert(as_targets(check@) =~= liquid_targets(x as int, y as int, d as int));
        self.check_swap_from_list(space, i, check);
    }

    /// Lets the gas cell at `(x, y)` drift to one place that the next two
    /// draws pick.
    pub fn move_gas(&mut self, space: &mut Space, x: i32, y: i32, rng: &mut RandomSource)
        requires
            old(space).wf(),
            old(space)@.contains(x as int, y as int),
        ensures
            final(space).wf(),
            final(space)@.shaped_like(old(space)@),
            scene(final(space)@, final(rng)@) == move_gas(
                scene(old(space)@, old(rng)@),
                x as int,
                y as int,
            ),
    {
        let i: usize = space.get_index(x as u32, y as u32);
        let dx: i32 = random_modifier(rng);
        let dy: i32 = random_modifier(rng);
        let check: Vec<(i32, i32)> = vec![(x + dx, y + dy)];
        assert(as_targets(check@) =~= seq![(x + dx, y + dy)]);
        self.check_swap_from_list(space, i, check);
    }

    /// Throws off a copy of `cell` from the flame at `(x, y)`: the next two
    /// draws pick the diagonal to try first, and the copy lands, marked as
    /// handled, in the first diagonal neighbour that is Empty.
    pub fn spawn_new(
        &mut self,
        space: &mut Space,
        x: i32,
        y: i32,
        cell: Cell,
        rng: &mut RandomSource,
    )
        requires
            old(space).wf(),
            old(space)@.contains(x as int, y as int),
        ensures
            final(space).wf(),
            final(space)@.shaped_like(old(space)@),
            scene(final(space)@, final(rng)@) == spawn_new(
                scene(old(space)@, old(rng)@),
                x as int,
                y as int,
                cell,
            ),
    {
        let dx: i32 = rng.next_side();
        let dy: i32 = rng.next_side();
        let right: i32 = x + dx;
        let left: i32 = x - dx;
        let down: i32 = y + dy;
        let up: i32 = y - dy;
        let list: Vec<(i32, i32)> = vec![(right, down), (left, down), (right, up), (left, up)];
        let ghost grid = space@;
        let ghost targets = spawn_targets(x as int, y as int, dx as int, dy as int);
        assert(as_targets(list@) =~= targets);
        let mut k: usize = 0;
        while k < list.len()
            invariant
                k <= list.len(),
                space.wf(),
                space@ == grid,
                grid == old(space)@,
                rng@ == old(rng)@.rest().rest(),
                dx == side(old(rng)@.peek()),
                dy == side(old(rng)@.rest().peek()),
                targets == spawn_targets(x as int, y as int, dx as int, dy as int),
                targets == as_targets(list@),
                first_empty(grid, targets, 0) == first_empty(grid, targets, k as nat),
            decreases list.len() - k,
        {
            let (tx, ty) = list[k];
            assert(targets[k as int] == (tx as int, ty as int));
            if let Some(ni) = space.get_index_checked(tx, ty) {
                if space.get_cell_type_at(ni) == CellType::Empty {
                    space.set_cell(ni, &cell);
                    return ;
                }
            }
            k += 1;
        }
    }

    /// The slots of the neighbours of the cell at `(x, y)`, in scan order:
    /// column by column, without the cell's own slot and without places off
    /// the space.
    pub fn foreach_neighbour(&mut self, space: &Space, x: i32, y: i32) -> (slots: Vec<usize>)
        requires
            space.wf(),
            space@.contains(x as int, y as int),
        ensures
            same_slots(slots@, neighbours(space@, x as int, y as int)),
            forall|k: int| 0 <= k < slots@.len() ==> #[trigger] slots@[k] < space@.cells.len(),
    {
        let mut slots: Vec<usize> = Vec::new();
        let mut dx: i32 = -1;
        while dx <= 1
            invariant
                -1 <= dx <= 2,
                space.wf(),
                space@.contains(x as int, y as int),
                same_slots(
                    slots@,
                    neighbours_upto(space@, x as int, y as int, ((dx + 1) * 3) as nat),
                ),
                forall|k: int| 0 <= k < slots@.len() ==> #[trigger] slots@[k] < space@.cells.len(),
            decreases 2 - dx,
        {
            let mut dy: i32 = -1;
            while dy <= 1
                invariant
                    -1 <= dx <= 1,
                    -1 <= dy <= 2,
                    space.wf(),
                    space@.contains(x as int, y as int),
                    same_slots(
                        slots@,
                        neighbours_upto(
                            space@,
                            x as int,
                            y as int,
                            ((dx + 1) * 3 + dy + 1) as nat,
                        ),
                    ),
                    forall|k: int|
                        0 <= k < slots@.len() ==> #[trigger] slots@[k] < space@.cells.len(),
                decreases 2 - dy,
            {
                let ghost k = (dx + 1) * 3 + dy + 1;
                assert(around(k) == (dx as int, dy as int));
                assert(k == 4 <==> dx == 0 && dy == 0);
                if !(dx == 0 && dy == 0) {
                    if let Some(ni) = space.get_index_checked(x + dx, y + dy) {
                        slots.push(ni);
                    }
                }
                dy += 1;
            }
            dx += 1;
        }
        slots
    }

    /// Lets the burning cell at `(x, y)` reach for its neighbours: each one
    /// that burns catches fire with a chance of [`IGNITE_CHANCE`].
    pub fn ignite_neighbours(&mut self, space: &mut Space, x: i32, y: i32, rng: &mut RandomSource)
        requires
            old(space).wf(),
            old(space)@.contains(x as int, y as int),
        ensures
            final(space).wf(),
            final(space)@.shaped_like(old(space)@),
            scene(final(space)@, final(rng)@) == ignite_neighbours(
                scene(old(space)@, old(rng)@),
                x as int,
                y as int,
            ),
    {
        let slots: Vec<usize> = self.foreach_neighbour(space, x, y);
        let ghost start = scene(space@, rng@);
        let ghost expected = neighbours(space@, x as int, y as int);
        let mut k: usize = 0;
        while k < slots.len()
            invariant
                k <= slots.len(),
                space.wf(),
                space@.shaped_like(start.grid),
                start == scene(old(space)@, old(rng)@),
                same_slots(slots@, expected),
                forall|n: int| 0 <= n < slots@.len() ==> #[trigger] slots@[n] < start.grid.cells.len(),
                scene(space@, rng@) == ignite_upto(start, expected, k as nat),
            decreases slots.len() - k,
        {
            let ni: usize = slots[k];
            assert(slots@[k as int] as int == expected[k as int]);
            let props = CellType::get_properties(space.get_cell_type_at(ni));
            if props.flammable && rng.next_chance(IGNITE_CHANCE) {
                space.get_cell_at(ni).init(CellType::Fire, rng);
            }
            k += 1;
        }
    }

    /// Lets the Acid cell at `(x, y)` reach for its neighbours: each one that
    /// dissolves becomes Empty with a chance of [`DISSOLVE_CHANCE`]. Tells
    /// whether any did.
    pub fn dissolve_neighbours(
        &mut self,
        space: &mut Space,
        x: i32,
        y: i32,
        rng: &mut RandomSource,
    ) -> (spent: bool)
        requires
            old(space).wf(),
            old(space)@.contains(x as int, y as int),
        ensures
            final(space).wf(),
            final(space)@.shaped_like(old(space)@),
            (Corrosion { scene: scene(final(space)@, final(rng)@), spent }) == dissolve_neighbours(
                scene(old(space)@, old(rng)@),
                x as int,
                y as int,
            ),
    {
        let slots: Vec<usize> = self.foreach_neighbour(space, x, y);
        let ghost start = scene(space@, rng@);
        let ghost expected = neighbours(space@, x as int, y as int);
        let mut spent: bool = false;
        let mut k: usize = 0;
        while k < slots.len()
            invariant
                k <= slots.len(),
                space.wf(),
                space@.shaped_like(start.grid),
                start == scene(old(space)@, old(rng)@),
                same_slots(slots@, expected),
                forall|n: int| 0 <= n < slots@.len() ==> #[trigger] slots@[n] < start.grid.cells.len(),
                (Corrosion { scene: scene(space@, rng@), spent }) == dissolve_upto(
                    start,
                    expected,
                    k as nat,
                ),
            decreases slots.len() - k,
        {
            let ni: usize = slots[k];
            assert(slots@[k as int] as int == expected[k as int]);
            let props = CellType::get_properties(space.get_cell_type_at(ni));
            if props.dissolvable && rng.next_chance(DISSOLVE_CHANCE) {
                space.get_cell_at(ni).init(CellType::Empty, rng);
                spent = true;
            }
            k += 1;
        }
        spent
    }

    /// The temperature after cooling by `decay`, stopping at the lowest
    /// temperature a cell can hold.
    pub fn cool(temp: i32, decay: u32) -> (cooler: i32)
        requires
            decay < COOLING_SPAN,
        ensures
            cooler == if temp - decay < i32::MIN {
                i32::MIN as int
            } else {
                temp - decay
            },
    {
        let t: i64 = temp as i64 - decay as i64;
        if t < i32::MIN as i64 {
            i32::MIN
        } else {
            t as i32
        }
    }

    /// Lets the cell at `(x, y)` act once, by the rule of its material.
    ///
    /// Empty, Rock and Wood do nothing. Sand and Gunpowder fall. Water and
    /// Oil flow. Propane drifts. Acid dissolves neighbours and is used up, or
    /// flows. Lava cools, sets to Rock when cold, ignites neighbours while
    /// molten, and flows. Fire cools, goes out when cold, throws off flames
    /// while hot, ignites neighbours while burning, and may drift.
    pub fn simulate_cell(&mut self, space: &mut Space, x: i32, y: i32, rng: &mut RandomSource)
        requires
            old(space).wf(),
            old(space)@.contains(x as int, y as int),
        ensures
            final(space).wf(),
            final(space)@.shaped_like(old(space)@),
            scene(final(space)@, final(rng)@) == simulate(
                scene(old(space)@, old(rng)@),
                x as int,
                y as int,
            ),
    {
        let i: usize = space.get_index(x as u32, y as u32);
        let cell: Cell = space.cell_at(i);
        match cell.cell_type {
            CellType::Empty => {},
            CellType::Wood | CellType::Rock => {},
            CellType::Sand | CellType::Gunpowder => {
                self.move_granular(space, x, y, rng);
            },
            CellType::Oil | CellType::Water => {
                self.move_liquid(space, x, y, rng);
            },
            CellType::Propane => {
                self.move_gas(space, x, y, rng);
            },
            CellType::Acid => {
                let spent: bool = self.dissolve_neighbours(space, x, y, rng);
                if spent {
                    space.get_cell_at(i).init(CellType::Empty, rng);
                } else {
                    self.move_liquid(space, x, y, rng);
                }
            },
            CellType::Lava => {
                let decay: u32 = rng.next_below(COOLING_SPAN);
                let mut now: Cell = cell;
                now.temp = Self::cool(cell.temp, decay);
                let set: bool = now.temp < COLD_TEMP;
                if set {
                    now.cell_type = CellType::Rock;
                }
                *space.get_cell_at(i) = now;
                if !set {
                    self.ignite_neighbours(space, x, y, rng);
                }
                self.move_liquid(space, x, y, rng);
            },
            CellType::Fire => {
                let decay: u32 = rng.next_below(COOLING_SPAN);
                let mut now: Cell = cell;
                now.temp = Self::cool(cell.temp, decay);
                if now.temp < COLD_TEMP {
                    now.cell_type = CellType::Empty;
                    now.temp = 0;
                }
                let burning: bool = now.cell_type == CellType::Fire;
                if now.temp > SPAWN_TEMP && rng.next_chance(SPAWN_CHANCE) {
                    now.temp = ((now.temp as i64 * 3) / 5) as i32;
                    *space.get_cell_at(i) = now;
                    self.spawn_new(space, x, y, now, rng);
                } else {
                    *space.get_cell_at(i) = now;
                }
                if burning {
                    self.ignite_neighbours(space, x, y, rng);
                }
                if rng.next_chance(RISE_CHANCE) {
                    self.move_gas(space, x, y, rng);
                }
            },
        }
    }

    /// Advances the space by one tick: the generation moves on, and every
    /// cell that has not been handled in it acts once. Rows are swept from
    /// the bottom up, alternately from the left and from the right.
    pub fn advance(&mut self, space: &mut Space, rng: &mut RandomSource)
        requires
            old(space).wf(),
        ensures
            final(space).wf(),
            final(space)@.shaped_like(old(space)@.bump()),
            scene(final(space)@, final(rng)@) == advance(scene(old(space)@, old(rng)@)),
            final(space)@.settled(),
    {
        proof {
            lemma_advance_settles(scene(space@, rng@));
        }
        space.increment_generation();
        let width: i32 = space.get_width() as i32;
        let height: i32 = space.get_height() as i32;
        let ghost start = scene(space@, rng@);
        let mut y: i32 = height;
        while y > 0
            invariant
                0 <= y <= height,
                width == start.grid.width,
                height == start.grid.height,
                space.wf(),
                space@.shaped_like(start.grid),
                scene(space@, rng@) == sweep(start, ((height - y) * width) as nat),
            decreases y,
        {
            y -= 1;
            let mut column: i32 = 0;
            while column < width
                invariant
                    0 <= y < height,
                    0 <= column <= width,
                    width == start.grid.width,
                    height == start.grid.height,
                    space.wf(),
                    space@.shaped_like(start.grid),
                    scene(space@, rng@) == sweep(
                        start,
                        ((height - 1 - y) * width + column) as nat,
                    ),
                decreases width - column,
            {
                let x: i32 = if y % 2 == 0 {
                    column
                } else {
                    width - column - 1
                };
                proof {
                    lemma_sweep_position(start.grid, height - 1 - y, column as int);
                }
                let i: usize = space.get_index(x as u32, y as u32);
                if space.cell_needs_updating(i) {
                    self.simulate_cell(space, x, y, rng);
                    space.update_cell_generation(i);
                }
                column += 1;
            }
            assert((height - 1 - y) * width + width == (height - y) * width) by (nonlinear_arith);
        }
        assert(height * width == start.grid.cells.len()) by (nonlinear_arith)
            requires
                start.grid.cells.len() == start.grid.width * start.grid.height,
                width == start.grid.width,
                height == start.grid.height,
        ;
    }
}

} // verus!
