//! The grid store: the flat cell array, its read accessors, the atomic cell
//! swap used by every move, and out-of-band painting.

use vstd::prelude::*;

use crate::cells::{
    fresh_particle, make_fresh_particle, Particle, ParticleType, Particles, GRID_LEN, WORLD_HEIGHT,
    WORLD_WIDTH, WORLD_X_UPPER_BOUND, WORLD_Y_UPPER_BOUND,
};
use crate::coords::{idx_of, in_bounds, lemma_idx_of_bounds, point_to_index};

verus! {

/// The grid array holds exactly one cell per coordinate.
pub open spec fn grid_ok(g: Seq<Particle>) -> bool {
    g.len() == GRID_LEN
}

/// Whether `(x, y)` is in bounds and its cell holds a particle of type `pt`.
/// An out-of-bounds coordinate holds no type at all.
pub open spec fn is_type_at(g: Seq<Particle>, x: int, y: int, pt: ParticleType) -> bool {
    in_bounds(x, y) && g[idx_of(x, y)].pt == pt
}

/// Whether `(x, y)` is in bounds and Empty.
pub open spec fn is_empty_at(g: Seq<Particle>, x: int, y: int) -> bool {
    is_type_at(g, x, y, ParticleType::Empty)
}

/// Reports whether the cell at `(x, y)` holds type `pt`; out-of-bounds
/// coordinates report false rather than trapping.
pub fn check_if_type(x: u32, y: u32, particles: &Particles, pt: ParticleType) -> (r: bool)
    requires
        grid_ok(particles@),
    ensures
        r == is_type_at(particles@, x as int, y as int, pt),
{
    if x >= WORLD_WIDTH || y >= WORLD_HEIGHT {
        return false;
    }
    let index: usize = point_to_index(x, y);
    let particle: Particle = particles[index];
    particle.pt == pt
}

/// Reports whether the cell at `(x, y)` is in bounds and Empty.
pub fn check_if_empty(x: u32, y: u32, particles: &Particles) -> (r: bool)
    requires
        grid_ok(particles@),
    ensures
        r == is_empty_at(particles@, x as int, y as int),
{
    check_if_type(x, y, particles, ParticleType::Empty)
}

/// The grid after swapping cells `i` (source) and `j` (destination): type and
/// fuse are exchanged, the destination is marked handled for this tick, and
/// the source keeps its own scratch flag.
pub open spec fn swap_spec(g: Seq<Particle>, i: int, j: int) -> Seq<Particle> {
    g.update(i, Particle { pt: g[j].pt, should_burn: g[j].should_burn, updated: g[i].updated })
        .update(j, Particle { pt: g[i].pt, should_burn: g[i].should_burn, updated: true })
}

/// Exchanges the contents of cells `i` and `j`, marking the destination `j`
/// as handled so the tick scan will not move the same particle again.
pub fn swap(i: usize, j: usize, particles: &mut Particles)
    requires
        grid_ok(old(particles)@),
        i < GRID_LEN,
        j < GRID_LEN,
        i != j,
    ensures
        final(particles)@ == swap_spec(old(particles)@, i as int, j as int),
        grid_ok(final(particles)@),
{
    let a: Particle = particles[i];
    let b: Particle = particles[j];
    particles[i] = Particle { pt: b.pt, should_burn: b.should_burn, updated: a.updated };
    particles[j] = Particle { pt: a.pt, should_burn: a.should_burn, updated: true };
}

/// Allocates the world grid, fully initialized to Empty cells.
pub fn new_particles() -> (r: Particles)
    ensures
        grid_ok(r@),
        forall|j: int| 0 <= j < GRID_LEN ==> r@[j] == fresh_particle(ParticleType::Empty),
{
    let mut v: Vec<Particle> = Vec::new();
    let mut i: usize = 0;
    while i < GRID_LEN
        invariant
            i <= GRID_LEN,
            v@.len() == i,
            forall|j: int| 0 <= j < i ==> v@[j] == fresh_particle(ParticleType::Empty),
        decreases GRID_LEN - i,
    {
        v.push(make_fresh_particle(ParticleType::Empty));
        i = i + 1;
    }
    v
}

/// The grid's fixed dimensions, for collaborators that iterate or clip.
pub fn dimensions() -> (r: (u32, u32))
    ensures
        r == (WORLD_WIDTH, WORLD_HEIGHT),
{
    (WORLD_WIDTH, WORLD_HEIGHT)
}

/// Read accessor for the render collaborator: the particle type at `(x, y)`.
pub fn cell_at(x: u32, y: u32, particles: &Particles) -> (r: ParticleType)
    requires
        grid_ok(particles@),
        in_bounds(x as int, y as int),
    ensures
        r == particles@[idx_of(x as int, y as int)].pt,
{
    let index: usize = point_to_index(x, y);
    particles[index].pt
}

/// Whether `(cx, cy)` lies in the square of the given radius around `(x, y)`.
pub open spec fn in_square(cx: int, cy: int, x: int, y: int, radius: int) -> bool {
    x - radius <= cx <= x + radius && y - radius <= cy <= y + radius
}

/// Paints type `pt` onto every cell within `radius` of `(x, y)`, clipped to
/// the grid bounds; painted cells become fresh particles of that type. This
/// is the out-of-band input path and bypasses the movement/reaction rules.
pub fn paint(x: u32, y: u32, radius: u32, pt: ParticleType, particles: &mut Particles)
    requires
        grid_ok(old(particles)@),
        in_bounds(x as int, y as int),
    ensures
        grid_ok(final(particles)@),
        forall|cx: int, cy: int|
            in_bounds(cx, cy) ==> #[trigger] final(particles)@[idx_of(cx, cy)] == (
            if in_square(cx, cy, x as int, y as int, radius as int) {
                fresh_particle(pt)
            } else {
                old(particles)@[idx_of(cx, cy)]
            }),
{
    let x0: u32 = if x > radius { x - radius } else { 0 };
    let y0: u32 = if y > radius { y - radius } else { 0 };
    let xw: u64 = x as u64 + radius as u64;
    let yw: u64 = y as u64 + radius as u64;
    let x1: u32 = if xw < WORLD_X_UPPER_BOUND as u64 { xw as u32 } else { WORLD_X_UPPER_BOUND };
    let y1: u32 = if yw < WORLD_Y_UPPER_BOUND as u64 { yw as u32 } else { WORLD_Y_UPPER_BOUND };
    let mut cx: u32 = x0;
    while cx <= x1
        invariant
            grid_ok(particles@),
            in_bounds(x as int, y as int),
            x0 <= cx <= x1 + 1,
            x0 as int == if x > radius { x - radius } else { 0 },
            y0 as int == if y > radius { y - radius } else { 0 },
            x1 as int == if x + radius < WORLD_X_UPPER_BOUND { x + radius } else { WORLD_X_UPPER_BOUND as int },
            y1 as int == if y + radius < WORLD_Y_UPPER_BOUND { y + radius } else { WORLD_Y_UPPER_BOUND as int },
            forall|a: int, b: int|
                in_bounds(a, b) ==> #[trigger] particles@[idx_of(a, b)] == (
                if in_square(a, b, x as int, y as int, radius as int) && a < cx {
                    fresh_particle(pt)
                } else {
                    old(particles)@[idx_of(a, b)]
                }),
        decreases x1 + 1 - cx,
    {
        let mut cy: u32 = y0;
        while cy <= y1
            invariant
                grid_ok(particles@),
                in_bounds(x as int, y as int),
                x0 <= cx <= x1,
                y0 <= cy <= y1 + 1,
                x0 as int == if x > radius { x - radius } else { 0 },
                y0 as int == if y > radius { y - radius } else { 0 },
                x1 as int == if x + radius < WORLD_X_UPPER_BOUND { x + radius } else { WORLD_X_UPPER_BOUND as int },
                y1 as int == if y + radius < WORLD_Y_UPPER_BOUND { y + radius } else { WORLD_Y_UPPER_BOUND as int },
                forall|a: int, b: int|
                    in_bounds(a, b) ==> #[trigger] particles@[idx_of(a, b)] == (
                    if in_square(a, b, x as int, y as int, radius as int) && (a < cx || (a == cx
                        && b < cy)) {
                        fresh_particle(pt)
                    } else {
                        old(particles)@[idx_of(a, b)]
                    }),
            decreases y1 + 1 - cy,
        {
            let index: usize = point_to_index(cx, cy);
            particles[index] = make_fresh_particle(pt);
            proof {
                assert forall|a: int, b: int| in_bounds(a, b) implies #[trigger] particles@[idx_of(
                    a,
                    b,
                )] == (
                if in_square(a, b, x as int, y as int, radius as int) && (a < cx || (a == cx && b
                    < cy + 1)) {
                    fresh_particle(pt)
                } else {
                    old(particles)@[idx_of(a, b)]
                }) by {
                    if (a, b) != (cx as int, cy as int) {
                        crate::coords::lemma_idx_of_injective(a, b, cx as int, cy as int);
                    }
                }
            }
            cy = cy + 1;
        }
        cx = cx + 1;
    }
}

} // verus!
