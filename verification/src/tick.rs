//! The tick scheduler: one complete pass over the grid in the fixed raster
//! order (bottom rows first), dispatching every not-yet-handled cell to its
//! type's rule. The whole tick is a mathematical function of the grid,
//! `tick_spec`, and `update_particles` is proved to compute exactly it.

use vstd::prelude::*;

use crate::cells::{fresh_particle, Particle, ParticleType, Particles, GRID_LEN, WORLD_HEIGHT, WORLD_WIDTH};
use crate::coords::{
    idx_of, in_bounds, index_to_point, lemma_coord_of_idx, lemma_idx_of_bounds, x_of, y_of,
};
use crate::grid::{grid_ok, is_empty_at, swap_spec};
use crate::movement::{gas_move, liquid_move, solid_move};
use crate::reactions::{
    acid_step, fire_step, lava_step, update_acid, update_fire, update_lava, update_sand,
    update_smoke, update_steam, update_water,
};

verus! {

/// `g` with every per-tick scratch flag cleared.
pub open spec fn clear_flags(g: Seq<Particle>) -> Seq<Particle> {
    Seq::new(
        g.len(),
        |j: int| Particle { pt: g[j].pt, should_burn: g[j].should_burn, updated: false },
    )
}

/// `g` with cell `i` marked handled for this tick.
pub open spec fn mark_cell(g: Seq<Particle>, i: int) -> Seq<Particle> {
    g.update(
        i,
        Particle { pt: g[i].pt, should_burn: g[i].should_burn, updated: true },
    )
}

/// Dispatch of one not-yet-handled cell: mark it handled, then run the rule
/// of its current type. Empty, Wood and Iron are inert.
pub open spec fn step_cell(g: Seq<Particle>, i: int) -> Seq<Particle> {
    let x = x_of(i);
    let y = y_of(i);
    let g1 = mark_cell(g, i);
    match g[i].pt {
        ParticleType::Empty => g1,
        ParticleType::Wood => g1,
        ParticleType::Iron => g1,
        ParticleType::Sand => solid_move(g1, x, y),
        ParticleType::Water => liquid_move(g1, x, y),
        ParticleType::Fire => fire_step(g1, x, y),
        ParticleType::Lava => lava_step(g1, x, y),
        ParticleType::Acid => acid_step(g1, x, y),
        ParticleType::Smoke => gas_move(g1, x, y),
        ParticleType::Steam => gas_move(g1, x, y),
    }
}

/// The scan pass from index `i` on: a cell already marked handled (it was
/// the destination of an earlier move this tick) is skipped, every other
/// cell is dispatched. The pass never revisits an index.
pub open spec fn scan_from(g: Seq<Particle>, i: int) -> Seq<Particle>
    decreases GRID_LEN - i,
{
    if !(0 <= i < GRID_LEN) {
        g
    } else {
        let g1 = if g[i].updated {
            g
        } else {
            step_cell(g, i)
        };
        scan_from(g1, i + 1)
    }
}

/// One full simulation tick: clear every scratch flag, run the scan pass in
/// raster order, and clear the scratch flags again so that no cell appears
/// handled between ticks.
pub open spec fn tick_spec(g: Seq<Particle>) -> Seq<Particle> {
    clear_flags(scan_from(clear_flags(g), 0))
}

/// A cell already marked handled is skipped by the scan: this is what keeps
/// a particle that already moved this tick from moving again when the pass
/// reaches its destination cell.
pub proof fn lemma_scan_skips_handled(g: Seq<Particle>, i: int)
    requires
        0 <= i < GRID_LEN,
        g[i].updated,
    ensures
        scan_from(g, i) == scan_from(g, i + 1),
{
}

/// The world that is Empty everywhere except for particle `p` at `(x, y)`.
pub open spec fn lone_particle_grid(x: int, y: int, p: Particle) -> Seq<Particle> {
    Seq::new(
        GRID_LEN as nat,
        |j: int|
            if j == idx_of(x, y) {
                p
            } else {
                fresh_particle(ParticleType::Empty)
            },
    )
}

/// `g` with every cell of the index range `[a, b)` marked handled.
pub open spec fn mark_range(g: Seq<Particle>, a: int, b: int) -> Seq<Particle> {
    Seq::new(
        g.len(),
        |j: int|
            if a <= j < b {
                Particle { pt: g[j].pt, should_burn: g[j].should_burn, updated: true }
            } else {
                g[j]
            },
    )
}

/// Scanning a range whose cells are Empty or already handled only marks the
/// Empty cells: dispatching an Empty cell has no other effect, and a handled
/// cell — say, the destination of an earlier move this tick — is skipped.
pub proof fn lemma_scan_empty_range(g: Seq<Particle>, a: int, b: int)
    requires
        grid_ok(g),
        0 <= a <= b <= GRID_LEN,
        forall|j: int|
            a <= j < b ==> (#[trigger] g[j]).pt == ParticleType::Empty || g[j].updated,
    ensures
        scan_from(g, a) == scan_from(mark_range(g, a, b), b),
    decreases b - a,
{
    if a == b {
        assert(mark_range(g, a, b) =~= g);
    } else {
        let g1 = if g[a].updated {
            g
        } else {
            step_cell(g, a)
        };
        assert(g1 =~= mark_range(g, a, a + 1));
        lemma_scan_empty_range(mark_range(g, a, a + 1), a + 1, b);
        assert(mark_range(mark_range(g, a, a + 1), a + 1, b) =~= mark_range(g, a, b));
    }
}

/// Sand settling, falling case: in a world that is Empty apart from one
/// fresh Sand particle with the bottom row not yet reached, one tick moves
/// the Sand exactly one row down and changes nothing else.
pub proof fn lemma_sand_falls_one_row(x: int, y: int)
    requires
        in_bounds(x, y),
        y + 1 < WORLD_HEIGHT,
    ensures
        tick_spec(lone_particle_grid(x, y, fresh_particle(ParticleType::Sand)))
            == lone_particle_grid(x, y + 1, fresh_particle(ParticleType::Sand)),
{
    let p = fresh_particle(ParticleType::Sand);
    let g = lone_particle_grid(x, y, p);
    lemma_idx_of_bounds(x, y);
    lemma_coord_of_idx(x, y);
    lemma_idx_of_bounds(x, y + 1);
    let s = idx_of(x, y);
    let d = idx_of(x, y + 1);
    assert(d == s - WORLD_WIDTH);
    assert(clear_flags(g) =~= g);
    lemma_scan_empty_range(g, 0, s);
    let gm = mark_range(g, 0, s);
    assert(gm[s] == p);
    let g1 = mark_cell(gm, s);
    assert(is_empty_at(g1, x, y + 1));
    let g2 = swap_spec(g1, s, d);
    assert(step_cell(gm, s) == g2);
    assert(scan_from(gm, s) == scan_from(g2, s + 1));
    lemma_scan_empty_range(g2, s + 1, GRID_LEN as int);
    let gf = mark_range(g2, s + 1, GRID_LEN as int);
    assert(scan_from(gf, GRID_LEN as int) == gf);
    assert(clear_flags(gf) =~= lone_particle_grid(x, y + 1, p));
}

/// Sand settling, resting case: a lone Sand particle on the bottom row does
/// not move; the tick leaves the world unchanged.
pub proof fn lemma_sand_rests_on_bottom(x: int)
    requires
        in_bounds(x, WORLD_HEIGHT - 1),
    ensures
        tick_spec(lone_particle_grid(x, WORLD_HEIGHT - 1, fresh_particle(ParticleType::Sand)))
            == lone_particle_grid(x, WORLD_HEIGHT - 1, fresh_particle(ParticleType::Sand)),
{
    let y = WORLD_HEIGHT - 1;
    let p = fresh_particle(ParticleType::Sand);
    let g = lone_particle_grid(x, y, p);
    lemma_idx_of_bounds(x, y);
    lemma_coord_of_idx(x, y);
    let s = idx_of(x, y);
    assert(clear_flags(g) =~= g);
    lemma_scan_empty_range(g, 0, s);
    let gm = mark_range(g, 0, s);
    assert(gm[s] == p);
    let g1 = mark_cell(gm, s);
    assert(step_cell(gm, s) == g1);
    assert(scan_from(gm, s) == scan_from(g1, s + 1));
    lemma_scan_empty_range(g1, s + 1, GRID_LEN as int);
    let gf = mark_range(g1, s + 1, GRID_LEN as int);
    assert(scan_from(gf, GRID_LEN as int) == gf);
    assert(clear_flags(gf) =~= lone_particle_grid(x, y, p));
}

/// A lone Water particle, with Empty below and on both diagonals below,
/// moves straight down one row per tick: down beats every other candidate.
pub proof fn lemma_water_falls_straight_down(x: int, y: int)
    requires
        in_bounds(x, y),
        y + 1 < WORLD_HEIGHT,
    ensures
        tick_spec(lone_particle_grid(x, y, fresh_particle(ParticleType::Water)))
            == lone_particle_grid(x, y + 1, fresh_particle(ParticleType::Water)),
{
    let p = fresh_particle(ParticleType::Water);
    let g = lone_particle_grid(x, y, p);
    lemma_idx_of_bounds(x, y);
    lemma_coord_of_idx(x, y);
    lemma_idx_of_bounds(x, y + 1);
    let s = idx_of(x, y);
    let d = idx_of(x, y + 1);
    assert(d == s - WORLD_WIDTH);
    assert(clear_flags(g) =~= g);
    lemma_scan_empty_range(g, 0, s);
    let gm = mark_range(g, 0, s);
    assert(gm[s] == p);
    let g1 = mark_cell(gm, s);
    assert(is_empty_at(g1, x, y + 1));
    let g2 = swap_spec(g1, s, d);
    assert(step_cell(gm, s) == g2);
    assert(scan_from(gm, s) == scan_from(g2, s + 1));
    lemma_scan_empty_range(g2, s + 1, GRID_LEN as int);
    let gf = mark_range(g2, s + 1, GRID_LEN as int);
    assert(scan_from(gf, GRID_LEN as int) == gf);
    assert(clear_flags(gf) =~= lone_particle_grid(x, y + 1, p));
}

/// A lone gas particle rises exactly one row per tick: even though its
/// destination cell lies ahead of the scan, the move marks that cell
/// handled, so the same particle is not dispatched again this tick.
pub proof fn lemma_smoke_rises_one_row(x: int, y: int)
    requires
        in_bounds(x, y),
        y >= 1,
    ensures
        tick_spec(lone_particle_grid(x, y, fresh_particle(ParticleType::Smoke)))
            == lone_particle_grid(x, y - 1, fresh_particle(ParticleType::Smoke)),
{
    let p = fresh_particle(ParticleType::Smoke);
    let g = lone_particle_grid(x, y, p);
    lemma_idx_of_bounds(x, y);
    lemma_coord_of_idx(x, y);
    lemma_idx_of_bounds(x, y - 1);
    let s = idx_of(x, y);
    let d = idx_of(x, y - 1);
    assert(d == s + WORLD_WIDTH);
    assert(clear_flags(g) =~= g);
    lemma_scan_empty_range(g, 0, s);
    let gm = mark_range(g, 0, s);
    assert(gm[s] == p);
    let g1 = mark_cell(gm, s);
    assert(is_empty_at(g1, x, y - 1));
    let g2 = swap_spec(g1, s, d);
    assert(step_cell(gm, s) == g2);
    assert(scan_from(gm, s) == scan_from(g2, s + 1));
    assert(g2[d].updated);
    lemma_scan_empty_range(g2, s + 1, GRID_LEN as int);
    let gf = mark_range(g2, s + 1, GRID_LEN as int);
    assert(scan_from(gf, GRID_LEN as int) == gf);
    assert(clear_flags(gf) =~= lone_particle_grid(x, y - 1, p));
}

/// A lone gas particle on the top row stays pinned there: the tick leaves
/// the world unchanged. (Deliberately preserved ceiling behavior.)
pub proof fn lemma_smoke_pinned_at_ceiling(x: int)
    requires
        in_bounds(x, 0),
    ensures
        tick_spec(lone_particle_grid(x, 0, fresh_particle(ParticleType::Smoke)))
            == lone_particle_grid(x, 0, fresh_particle(ParticleType::Smoke)),
{
    let p = fresh_particle(ParticleType::Smoke);
    let g = lone_particle_grid(x, 0, p);
    lemma_idx_of_bounds(x, 0);
    lemma_coord_of_idx(x, 0);
    let s = idx_of(x, 0);
    assert(clear_flags(g) =~= g);
    lemma_scan_empty_range(g, 0, s);
    let gm = mark_range(g, 0, s);
    assert(gm[s] == p);
    let g1 = mark_cell(gm, s);
    assert(step_cell(gm, s) == g1);
    assert(scan_from(gm, s) == scan_from(g1, s + 1));
    lemma_scan_empty_range(g1, s + 1, GRID_LEN as int);
    let gf = mark_range(g1, s + 1, GRID_LEN as int);
    assert(scan_from(gf, GRID_LEN as int) == gf);
    assert(clear_flags(gf) =~= lone_particle_grid(x, 0, p));
}

/// Clears the scratch flag of every cell.
fn clear_updated_flags(particles: &mut Particles)
    requires
        grid_ok(old(particles)@),
    ensures
        grid_ok(final(particles)@),
        final(particles)@ == clear_flags(old(particles)@),
{
    let mut i: usize = 0;
    while i < GRID_LEN
        invariant
            grid_ok(old(particles)@),
            grid_ok(particles@),
            i <= GRID_LEN,
            forall|j: int|
                0 <= j < i ==> #[trigger] particles@[j] == clear_flags(old(particles)@)[j],
            forall|j: int| i <= j < GRID_LEN ==> #[trigger] particles@[j] == old(particles)@[j],
        decreases GRID_LEN - i,
    {
        let p: Particle = particles[i];
        particles[i] = Particle { pt: p.pt, should_burn: p.should_burn, updated: false };
        i = i + 1;
    }
    proof {
        assert(particles@ =~= clear_flags(old(particles)@));
    }
}

/// Advances the simulation by one tick.
///
/// Every scratch flag is cleared before the pass, the grid is scanned once
/// in raster order with each live cell dispatched at most once, and the
/// scratch state is reset again afterwards — so between ticks no cell
/// retains a handled mark.
pub fn update_particles(particles: &mut Particles)
    requires
        grid_ok(old(particles)@),
    ensures
        grid_ok(final(particles)@),
        final(particles)@ == tick_spec(old(particles)@),
        forall|j: int| 0 <= j < GRID_LEN ==> !(#[trigger] final(particles)@[j]).updated,
{
    clear_updated_flags(particles);
    let ghost g0 = particles@;
    let mut i: usize = 0;
    while i < GRID_LEN
        invariant
            grid_ok(particles@),
            i <= GRID_LEN,
            scan_from(g0, 0) == scan_from(particles@, i as int),
        decreases GRID_LEN - i,
    {
        let ghost gi = particles@;
        let p: Particle = particles[i];
        if !p.updated {
            particles[i] = Particle { pt: p.pt, should_burn: p.should_burn, updated: true };
            let r: (u32, u32) = index_to_point(i);
            match p.pt {
                ParticleType::Empty => {},
                ParticleType::Wood => {},
                ParticleType::Iron => {},
                ParticleType::Sand => update_sand(r.0, r.1, particles),
                ParticleType::Water => update_water(r.0, r.1, particles),
                ParticleType::Fire => update_fire(r.0, r.1, particles),
                ParticleType::Lava => update_lava(r.0, r.1, particles),
                ParticleType::Acid => update_acid(r.0, r.1, particles),
                ParticleType::Smoke => update_smoke(r.0, r.1, particles),
                ParticleType::Steam => update_steam(r.0, r.1, particles),
            }
            proof {
                assert(particles@ == step_cell(gi, i as int));
            }
        }
        proof {
            assert(scan_from(gi, i as int) == scan_from(particles@, i as int + 1));
        }
        i = i + 1;
    }
    proof {
        assert(particles@ == scan_from(g0, 0));
    }
    clear_updated_flags(particles);
}

} // verus!
