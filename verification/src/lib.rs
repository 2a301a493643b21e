//! A verified falling-particle sandbox engine: a fixed-size 2-D grid of
//! cells evolved once per tick by per-type movement rules (gravity for
//! solids and liquids, buoyancy for gases) and reaction rules (combustion,
//! corrosion, evaporation). The whole tick is specified as a mathematical
//! function of the grid and the executable scheduler is proved to compute
//! exactly it; presentation and input handling live outside this crate.

pub mod cells;
pub mod coords;
pub mod grid;
pub mod movement;
pub mod reactions;
pub mod tick;
