//! Movement primitives: the shared fall/rise/spread rules for the three
//! density classes. Each class tries a fixed priority list of candidate
//! destinations; the first eligible candidate wins and the move is one grid
//! swap, else the cell stays put for the tick.

use vstd::prelude::*;

use crate::cells::{Particle, ParticleType, Particles};
use crate::coords::{idx_of, in_bounds, lemma_idx_of_bounds, lemma_idx_of_injective, point_to_index};
use crate::grid::{check_if_empty, check_if_type, grid_ok, is_empty_at, is_type_at, swap, swap_spec};

verus! {

/// Where a solid (Sand) at `(x, y)` moves this tick: straight down into
/// Empty, down through Water (density displacement), else down-left, else
/// down-right into Empty; `None` when blocked. Out-of-bounds candidates are
/// never eligible.
pub open spec fn solid_dest(g: Seq<Particle>, x: int, y: int) -> Option<(int, int)> {
    if is_empty_at(g, x, y + 1) {
        Some((x, y + 1))
    } else if is_type_at(g, x, y + 1, ParticleType::Water) {
        Some((x, y + 1))
    } else if is_empty_at(g, x - 1, y + 1) {
        Some((x - 1, y + 1))
    } else if is_empty_at(g, x + 1, y + 1) {
        Some((x + 1, y + 1))
    } else {
        None
    }
}

/// The grid after solid movement from `(x, y)`.
pub open spec fn solid_move(g: Seq<Particle>, x: int, y: int) -> Seq<Particle> {
    match solid_dest(g, x, y) {
        Some(d) => swap_spec(g, idx_of(x, y), idx_of(d.0, d.1)),
        None => g,
    }
}

/// Where a liquid at `(x, y)` moves this tick: down, down-left, down-right,
/// left, right — always into Empty; `None` when blocked.
pub open spec fn liquid_dest(g: Seq<Particle>, x: int, y: int) -> Option<(int, int)> {
    if is_empty_at(g, x, y + 1) {
        Some((x, y + 1))
    } else if is_empty_at(g, x - 1, y + 1) {
        Some((x - 1, y + 1))
    } else if is_empty_at(g, x + 1, y + 1) {
        Some((x + 1, y + 1))
    } else if is_empty_at(g, x - 1, y) {
        Some((x - 1, y))
    } else if is_empty_at(g, x + 1, y) {
        Some((x + 1, y))
    } else {
        None
    }
}

/// The grid after liquid movement from `(x, y)`.
pub open spec fn liquid_move(g: Seq<Particle>, x: int, y: int) -> Seq<Particle> {
    match liquid_dest(g, x, y) {
        Some(d) => swap_spec(g, idx_of(x, y), idx_of(d.0, d.1)),
        None => g,
    }
}

/// Where a gas at `(x, y)` moves this tick: up, up-left, up-right, left,
/// right — always into Empty. A gas already on the top row attempts no move
/// at all and stays pinned against the ceiling.
pub open spec fn gas_dest(g: Seq<Particle>, x: int, y: int) -> Option<(int, int)> {
    if y == 0 {
        None
    } else if is_empty_at(g, x, y - 1) {
        Some((x, y - 1))
    } else if is_empty_at(g, x - 1, y - 1) {
        Some((x - 1, y - 1))
    } else if is_empty_at(g, x + 1, y - 1) {
        Some((x + 1, y - 1))
    } else if is_empty_at(g, x - 1, y) {
        Some((x - 1, y))
    } else if is_empty_at(g, x + 1, y) {
        Some((x + 1, y))
    } else {
        None
    }
}

/// The grid after gas movement from `(x, y)`.
pub open spec fn gas_move(g: Seq<Particle>, x: int, y: int) -> Seq<Particle> {
    match gas_dest(g, x, y) {
        Some(d) => swap_spec(g, idx_of(x, y), idx_of(d.0, d.1)),
        None => g,
    }
}

/// Performs solid movement for the particle at `(x, y)`.
pub fn solid_particle_movement(x: u32, y: u32, particles: &mut Particles)
    requires
        grid_ok(old(particles)@),
        in_bounds(x as int, y as int),
    ensures
        grid_ok(final(particles)@),
        final(particles)@ == solid_move(old(particles)@, x as int, y as int),
{
    proof {
        lemma_idx_of_bounds(x as int, y as int);
    }
    if check_if_empty(x, y + 1, particles) {
        let orig: usize = point_to_index(x, y);
        let dest: usize = point_to_index(x, y + 1);
        proof {
            lemma_idx_of_injective(x as int, y as int, x as int, y as int + 1);
        }
        swap(orig, dest, particles);
        return ;
    }
    if check_if_type(x, y + 1, particles, ParticleType::Water) {
        let orig: usize = point_to_index(x, y);
        let dest: usize = point_to_index(x, y + 1);
        proof {
            lemma_idx_of_injective(x as int, y as int, x as int, y as int + 1);
        }
        swap(orig, dest, particles);
        return ;
    }
    if x > 0 && check_if_empty(x - 1, y + 1, particles) {
        let orig: usize = point_to_index(x, y);
        let dest: usize = point_to_index(x - 1, y + 1);
        proof {
            lemma_idx_of_injective(x as int, y as int, x as int - 1, y as int + 1);
        }
        swap(orig, dest, particles);
        return ;
    }
    if check_if_empty(x + 1, y + 1, particles) {
        let orig: usize = point_to_index(x, y);
        let dest: usize = point_to_index(x + 1, y + 1);
        proof {
            lemma_idx_of_injective(x as int, y as int, x as int + 1, y as int + 1);
        }
        swap(orig, dest, particles);
        return ;
    }
}

/// Performs liquid movement for the particle at `(x, y)`.
pub fn liquid_particle_movement(x: u32, y: u32, particles: &mut Particles)
    requires
        grid_ok(old(particles)@),
        in_bounds(x as int, y as int),
    ensures
        grid_ok(final(particles)@),
        final(particles)@ == liquid_move(old(particles)@, x as int, y as int),
{
    proof {
        lemma_idx_of_bounds(x as int, y as int);
    }
    if check_if_empty(x, y + 1, particles) {
        let orig: usize = point_to_index(x, y);
        let dest: usize = point_to_index(x, y + 1);
        proof {
            lemma_idx_of_injective(x as int, y as int, x as int, y as int + 1);
        }
        swap(orig, dest, particles);
        return ;
    }
    if x > 0 && check_if_empty(x - 1, y + 1, particles) {
        let orig: usize = point_to_index(x, y);
        let dest: usize = point_to_index(x - 1, y + 1);
        proof {
            lemma_idx_of_injective(x as int, y as int, x as int - 1, y as int + 1);
        }
        swap(orig, dest, particles);
        return ;
    }
    if check_if_empty(x + 1, y + 1, particles) {
        let orig: usize = point_to_index(x, y);
        let dest: usize = point_to_index(x + 1, y + 1);
        proof {
            lemma_idx_of_injective(x as int, y as int, x as int + 1, y as int + 1);
        }
        swap(orig, dest, particles);
        return ;
    }
    if x > 0 && check_if_empty(x - 1, y, particles) {
        let orig: usize = point_to_index(x, y);
        let dest: usize = point_to_index(x - 1, y);
        proof {
            lemma_idx_of_injective(x as int, y as int, x as int - 1, y as int);
        }
        swap(orig, dest, particles);
        return ;
    }
    if check_if_empty(x + 1, y, particles) {
        let orig: usize = point_to_index(x, y);
        let dest: usize = point_to_index(x + 1, y);
        proof {
            lemma_idx_of_injective(x as int, y as int, x as int + 1, y as int);
        }
        swap(orig, dest, particles);
        return ;
    }
}

/// Performs gas movement for the particle at `(x, y)`.
pub fn gas_particle_movement(x: u32, y: u32, particles: &mut Particles)
    requires
        grid_ok(old(particles)@),
        in_bounds(x as int, y as int),
    ensures
        grid_ok(final(particles)@),
        final(particles)@ == gas_move(old(particles)@, x as int, y as int),
{
    proof {
        lemma_idx_of_bounds(x as int, y as int);
    }
    if y == 0 {
        return ;
    }
    if check_if_empty(x, y - 1, particles) {
        let orig: usize = point_to_index(x, y);
        let dest: usize = point_to_index(x, y - 1);
        proof {
            lemma_idx_of_injective(x as int, y as int, x as int, y as int - 1);
        }
        swap(orig, dest, particles);
        return ;
    }
    if x > 0 && check_if_empty(x - 1, y - 1, particles) {
        let orig: usize = point_to_index(x, y);
        let dest: usize = point_to_index(x - 1, y - 1);
        proof {
            lemma_idx_of_injective(x as int, y as int, x as int - 1, y as int - 1);
        }
        swap(orig, dest, particles);
        return ;
    }
    if check_if_empty(x + 1, y - 1, particles) {
        let orig: usize = point_to_index(x, y);
        let dest: usize = point_to_index(x + 1, y - 1);
        proof {
            lemma_idx_of_injective(x as int, y as int, x as int + 1, y as int - 1);
        }
        swap(orig, dest, particles);
        return ;
    }
    if x > 0 && check_if_empty(x - 1, y, particles) {
        let orig: usize = point_to_index(x, y);
        let dest: usize = point_to_index(x - 1, y);
        proof {
            lemma_idx_of_injective(x as int, y as int, x as int - 1, y as int);
        }
        swap(orig, dest, particles);
        return ;
    }
    if check_if_empty(x + 1, y, particles) {
        let orig: usize = point_to_index(x, y);
        let dest: usize = point_to_index(x + 1, y);
        proof {
            lemma_idx_of_injective(x as int, y as int, x as int + 1, y as int);
        }
        swap(orig, dest, particles);
        return ;
    }
}

/// A single movement step carries a particle at most one cell in each axis,
/// always to an in-bounds destination, and the destination cell is marked
/// handled for the rest of the tick. Blocked cells do not move at all.
pub proof fn lemma_movement_at_most_one_cell(g: Seq<Particle>, x: int, y: int)
    requires
        grid_ok(g),
        in_bounds(x, y),
    ensures
        solid_dest(g, x, y) matches Some(d) ==> in_bounds(d.0, d.1) && -1 <= d.0 - x <= 1 && d.1
            == y + 1 && solid_move(g, x, y)[idx_of(d.0, d.1)].updated,
        solid_dest(g, x, y) is None ==> solid_move(g, x, y) == g,
        liquid_dest(g, x, y) matches Some(d) ==> in_bounds(d.0, d.1) && -1 <= d.0 - x <= 1 && y
            <= d.1 <= y + 1 && liquid_move(g, x, y)[idx_of(d.0, d.1)].updated,
        liquid_dest(g, x, y) is None ==> liquid_move(g, x, y) == g,
        gas_dest(g, x, y) matches Some(d) ==> in_bounds(d.0, d.1) && -1 <= d.0 - x <= 1 && y - 1
            <= d.1 <= y && gas_move(g, x, y)[idx_of(d.0, d.1)].updated,
        gas_dest(g, x, y) is None ==> gas_move(g, x, y) == g,
{
    if let Some(d) = solid_dest(g, x, y) {
        lemma_idx_of_injective(x, y, d.0, d.1);
        lemma_idx_of_bounds(d.0, d.1);
    }
    if let Some(d) = liquid_dest(g, x, y) {
        lemma_idx_of_injective(x, y, d.0, d.1);
        lemma_idx_of_bounds(d.0, d.1);
    }
    if let Some(d) = gas_dest(g, x, y) {
        lemma_idx_of_injective(x, y, d.0, d.1);
        lemma_idx_of_bounds(d.0, d.1);
    }
}

/// Liquid priority order: with Empty directly below, a liquid moves straight
/// down — down beats the two diagonals, which beat the two horizontals —
/// whatever the diagonal or horizontal neighbors hold.
pub proof fn lemma_liquid_prefers_down(g: Seq<Particle>, x: int, y: int)
    requires
        grid_ok(g),
        in_bounds(x, y),
        is_empty_at(g, x, y + 1),
    ensures
        liquid_move(g, x, y) == swap_spec(g, idx_of(x, y), idx_of(x, y + 1)),
{
}

/// The exact liquid candidate priority: down beats the diagonals, the
/// diagonals beat the horizontals, down-left beats down-right, and left
/// beats right; a liquid blocked on all five candidates stays put.
pub proof fn lemma_liquid_priority_order(g: Seq<Particle>, x: int, y: int)
    requires
        grid_ok(g),
        in_bounds(x, y),
    ensures
        is_empty_at(g, x, y + 1) ==> liquid_dest(g, x, y) == Some((x, y + 1)),
        !is_empty_at(g, x, y + 1) && is_empty_at(g, x - 1, y + 1) ==> liquid_dest(g, x, y)
            == Some((x - 1, y + 1)),
        !is_empty_at(g, x, y + 1) && !is_empty_at(g, x - 1, y + 1) && is_empty_at(g, x + 1, y + 1)
            ==> liquid_dest(g, x, y) == Some((x + 1, y + 1)),
        !is_empty_at(g, x, y + 1) && !is_empty_at(g, x - 1, y + 1) && !is_empty_at(g, x + 1, y + 1)
            && is_empty_at(g, x - 1, y) ==> liquid_dest(g, x, y) == Some((x - 1, y)),
        !is_empty_at(g, x, y + 1) && !is_empty_at(g, x - 1, y + 1) && !is_empty_at(g, x + 1, y + 1)
            && !is_empty_at(g, x - 1, y) && is_empty_at(g, x + 1, y) ==> liquid_dest(g, x, y)
            == Some((x + 1, y)),
        !is_empty_at(g, x, y + 1) && !is_empty_at(g, x - 1, y + 1) && !is_empty_at(g, x + 1, y + 1)
            && !is_empty_at(g, x - 1, y) && !is_empty_at(g, x + 1, y) ==> liquid_dest(g, x, y)
            is None && liquid_move(g, x, y) == g,
{
}

/// A gas on the top row is pinned: it attempts no move this tick, even
/// sideways. (Deliberately preserved ceiling behavior of the movement rule.)
pub proof fn lemma_gas_top_row_pinned(g: Seq<Particle>, x: int)
    requires
        grid_ok(g),
        in_bounds(x, 0),
    ensures
        gas_move(g, x, 0) == g,
{
}

} // verus!
