//! What holds of the simulation for every grid and every sequence of draws.
pub mod brush;
pub mod density;
pub mod fire;
pub mod moves;
pub mod stamps;
pub mod stasis;
