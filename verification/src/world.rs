//! The world: a space, the pointer, and the scheduler that advances the
//! space, tied together for the embedding application.
use crate::cells::CellType;
use crate::input::{InputTracker, Pointer};
use crate::random::RandomSource;
use crate::simulator::{Simulator, Strategy};
use crate::space::{place, scene, Grid, Scene, Space};
use vstd::prelude::*;

verus! {

/// The scene after the pointer has painted into it: while the pointer is
/// pressed, a brush stroke of the selected material is placed at its cell,
/// shifted one cell to the right in odd generations.
pub open spec fn paint(s: Scene, pointer: Pointer) -> Scene {
    if pointer.down {
        place(s, pointer.x + s.grid.generation % 2, pointer.y as int, pointer.selected_type)
    } else {
        s
    }
}

/// A simulated space with its pointer and its scheduler.
pub struct World {
    /// Whether the simulation is running.
    pub run: bool,
    /// The grid of cells.
    pub space: Space,
    /// The pointer.
    pub input: InputTracker,
    /// The scheduler that advances the space.
    pub simulator: Strategy,
}

impl World {
    /// A running world of the given size, all Empty, advanced by the row
    /// sweep.
    pub fn new(width: u32, height: u32) -> (world: World)
        requires
            width <= i32::MAX,
            height <= i32::MAX,
            width * height <= u32::MAX,
        ensures
            world.run,
            world.space.wf(),
            world.space@ == Grid::blank(width as nat, height as nat),
            world.input@ == (Pointer {
                down: false,
                x: 0,
                y: 0,
                selected_type: CellType::Sand,
            }),
            world.simulator == Strategy::Swap,
    {
        World::with_strategy(width, height, Strategy::Swap)
    }

    /// A running world of the given size, all Empty, advanced by the given
    /// scheduler.
    pub fn with_strategy(width: u32, height: u32, strategy: Strategy) -> (world: World)
        requires
            width <= i32::MAX,
            height <= i32::MAX,
            width * height <= u32::MAX,
        ensures
            world.run,
            world.space.wf(),
            world.space@ == Grid::blank(width as nat, height as nat),
            world.input@ == (Pointer {
                down: false,
                x: 0,
                y: 0,
                selected_type: CellType::Sand,
            }),
            world.simulator == strategy,
    {
        World {
            run: true,
            space: Space::new(width, height),
            input: InputTracker::new(),
            simulator: strategy,
        }
    }

    /// Pauses a running world and resumes a paused one.
    pub fn toggle_run(&mut self)
        ensures
            final(self).run == !old(self).run,
            final(self).space == old(self).space,
            final(self).input == old(self).input,
            final(self).simulator == old(self).simulator,
    {
        self.run = !self.run;
    }

    /// Whether the simulation is running.
    pub fn is_running(&self) -> (running: bool)
        ensures
            running == self.run,
    {
        self.run
    }

    /// Advances the world by one tick: the pointer paints first, then the
    /// scheduler advances the space by one generation.
    pub fn advance_simulation(&mut self, rng: &mut RandomSource)
        requires
            old(self).space.wf(),
        ensures
            final(self).space.wf(),
            final(self).space@.shaped_like(old(self).space@.bump()),
            scene(final(self).space@, final(rng)@) == old(self).simulator.step(
                paint(scene(old(self).space@, old(rng)@), old(self).input@),
            ),
            final(self).run == old(self).run,
            final(self).input == old(self).input,
            final(self).simulator == old(self).simulator,
            old(self).simulator == Strategy::Swap ==> final(self).space@.settled(),
    {
        if let Some((x, y)) = self.input.get_pos() {
            let offset: i64 = if self.space.get_generation() % 2 == 0 {
                0
            } else {
                1
            };
            self.space.paint(x as i64 + offset, y as i64, self.input.get_selected_type(), rng);
        }
        self.simulator.tick(&mut self.space, rng);
    }
}

} // verus!
