//! What the embedding application configures: the size of the space, the
//! pace of the ticks, and the scheduler.
use crate::cells::CellType;
use crate::input::Pointer;
use crate::simulator::Strategy;
use crate::space::Grid;
use crate::world::World;
use crate::{REFRESH, SPACE_HEIGHT, SPACE_WIDTH};
use vstd::prelude::*;

verus! {

/// The configuration of a simulation.
#[derive(Copy, Clone, Debug, PartialEq, Eq, Structural)]
pub struct Config {
    /// Width of the space, in cells.
    pub width: u32,
    /// Height of the space, in cells.
    pub height: u32,
    /// Milliseconds between two ticks.
    pub tick_interval_ms: i32,
    /// The scheduler that advances the space.
    pub strategy: Strategy,
}

/// Whether a space of the given size can be made: every cell must be
/// reachable by signed 32-bit coordinates and by a 32-bit slot number.
pub open spec fn fits(width: u32, height: u32) -> bool {
    width <= i32::MAX && height <= i32::MAX && width * height <= u32::MAX
}

impl Config {
    /// The default configuration: a space of 1024 by 640 cells, a tick every
    /// 10 milliseconds, the row sweep.
    pub fn new() -> (config: Config)
        ensures
            config == (Config {
                width: SPACE_WIDTH,
                height: SPACE_HEIGHT,
                tick_interval_ms: REFRESH,
                strategy: Strategy::Swap,
            }),
            fits(config.width, config.height),
    {
        Config {
            width: SPACE_WIDTH,
            height: SPACE_HEIGHT,
            tick_interval_ms: REFRESH,
            strategy: Strategy::Swap,
        }
    }

    /// Whether a space of the configured size can be made.
    pub fn fits(&self) -> (fitting: bool)
        ensures
            fitting == fits(self.width, self.height),
    {
        if self.width > 0x7fff_ffff || self.height > 0x7fff_ffff {
            return false;
        }
        assert(self.width * self.height <= 0x7fff_ffff * 0x7fff_ffff) by (nonlinear_arith)
            requires
                self.width <= 0x7fff_ffff,
                self.height <= 0x7fff_ffff,
        ;
        let cells: u64 = self.width as u64 * self.height as u64;
        cells <= 0xffff_ffff
    }

    /// A running world as configured, or `None` where the space would be too
    /// large.
    pub fn build(&self) -> (world: Option<World>)
        ensures
            world.is_some() == fits(self.width, self.height),
            world matches Some(w) ==> {
                &&& w.run
                &&& w.space.wf()
                &&& w.space@ == Grid::blank(self.width as nat, self.height as nat)
                &&& w.input@ == (Pointer {
                    down: false,
                    x: 0,
                    y: 0,
                    selected_type: CellType::Sand,
                })
                &&& w.simulator == self.strategy
            },
    {
        if self.fits() {
            Some(World::with_strategy(self.width, self.height, self.strategy))
        } else {
            None
        }
    }
}

} // verus!
