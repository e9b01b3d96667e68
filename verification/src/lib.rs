//! A falling-sand simulation: granular, liquid, gaseous and burning materials
//! on a two-dimensional grid, advanced one discrete tick at a time.
//!
//! The crate holds the simulation engine only. Drawing, pointer input and the
//! host's random generator belong to the embedding application, which hands
//! the engine plain values: grid coordinates, a material, and 32-bit uniform
//! draws.
//!
//! - [`cells`]: the materials, their fixed properties, and the cell.
//! - [`space`]: the grid of cells, its generation counter, and the brush.
//! - [`random`]: the source of draws that every random choice is taken from.
//! - [`swapping`]: the row-sweep scheduler and the rule of each material.
//! - [`cellular`]: the block scheduler and its rule table.
//! - [`simulator`]: the interface that both schedulers share.
//! - [`world`], [`input`], [`config`], [`timer`], [`render`]: what ties the
//!   engine to an application.
//! - [`laws`]: what is proved of the engine for every grid and every
//!   sequence of draws.
//!
//! Every executable function states, over the mathematical view of its
//! arguments, exactly what it returns and changes. A tick is a function of
//! the grid and of the draws handed in: the same grid and the same draws give
//! the same grid again.
use vstd::prelude::*;

pub mod cells;
pub mod cellular;
pub mod config;
pub mod input;
pub mod laws;
pub mod random;
pub mod render;
pub mod simulator;
pub mod space;
pub mod swapping;
pub mod timer;
pub mod world;

verus! {

/// Milliseconds between two ticks.
pub const REFRESH: i32 = 10;

/// Width of the simulated space, in cells.
pub const SPACE_WIDTH: u32 = 1024;

/// Height of the simulated space, in cells.
pub const SPACE_HEIGHT: u32 = 640;

/// Width of a drawn cell, in pixels.
pub const CELL_WIDTH: u32 = 3;

/// Height of a drawn cell, in pixels.
pub const CELL_HEIGHT: u32 = 3;

} // verus!
