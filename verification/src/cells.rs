//! Cell state for the falling-particle world: the closed set of particle
//! types and the per-cell record (type, fuse flag, per-tick scratch flag).

use vstd::prelude::*;

verus! {

/// Width of the world grid, in cells.
pub const WORLD_WIDTH: u32 = 200;

/// Height of the world grid, in cells.
pub const WORLD_HEIGHT: u32 = 150;

/// Largest valid x coordinate.
pub const WORLD_X_UPPER_BOUND: u32 = 199;

/// Largest valid y coordinate.
pub const WORLD_Y_UPPER_BOUND: u32 = 149;

/// Number of cells in the flat grid array: `WORLD_WIDTH * WORLD_HEIGHT`.
pub const GRID_LEN: usize = 30000;

/// The closed enumeration of particle types a cell can hold.
#[derive(PartialEq, Eq, Structural, Copy, Clone, Debug)]
pub enum ParticleType {
    Empty,
    Sand,
    Water,
    Wood,
    Iron,
    Fire,
    Acid,
    Smoke,
    Steam,
    Lava,
}

/// One grid cell's state.
///
/// `should_burn` is the one-tick fuse used by Fire and Acid before their
/// reactive effect fires. `updated` is scratch state meaning "already handled
/// in the current tick"; it is false between ticks.
#[derive(PartialEq, Eq, Structural, Copy, Clone, Debug)]
pub struct Particle {
    pub pt: ParticleType,
    pub should_burn: bool,
    pub updated: bool,
}

/// The world's cell array, in the flat layout of `coords::idx_of`.
pub type Particles = Vec<Particle>;

/// The state of a freshly initialized (or freshly painted) cell of type `pt`.
pub open spec fn fresh_particle(pt: ParticleType) -> Particle {
    Particle { pt: pt, should_burn: false, updated: false }
}

/// Builds the cell state a freshly painted cell of type `pt` gets.
pub fn make_fresh_particle(pt: ParticleType) -> (r: Particle)
    ensures
        r == fresh_particle(pt),
{
    Particle { pt: pt, should_burn: false, updated: false }
}

} // verus!
