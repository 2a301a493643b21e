//! Reaction rules: the per-type behaviors dispatched once per live cell per
//! tick — combustion (Fire), ignition/evaporation (Lava), corrosion (Acid),
//! and the movement-only types (Sand, Water, Smoke, Steam).

use vstd::prelude::*;

use crate::cells::{Particle, ParticleType, Particles};
use crate::coords::{
    idx_of, in_bounds, lemma_idx_of_bounds, lemma_idx_of_injective, lemma_nb_distinct, nb,
    neighbor_at, point_to_index,
};
use crate::grid::{check_if_type, grid_ok, is_type_at};
use crate::movement::{
    gas_move, gas_particle_movement, liquid_dest, liquid_move, liquid_particle_movement,
    solid_move, solid_particle_movement,
};

verus! {

/// `g` with the cell at `(x, y)` converted to a fresh particle of type `pt`:
/// the fuse is cleared, the per-tick scratch flag is kept.
pub open spec fn convert_cell(g: Seq<Particle>, x: int, y: int, pt: ParticleType) -> Seq<
    Particle,
> {
    g.update(
        idx_of(x, y),
        Particle { pt: pt, should_burn: false, updated: g[idx_of(x, y)].updated },
    )
}

/// `g` with only the particle type at `(x, y)` replaced; fuse and scratch
/// flag are kept.
pub open spec fn set_type(g: Seq<Particle>, x: int, y: int, pt: ParticleType) -> Seq<Particle> {
    g.update(
        idx_of(x, y),
        Particle {
            pt: pt,
            should_burn: g[idx_of(x, y)].should_burn,
            updated: g[idx_of(x, y)].updated,
        },
    )
}

/// `g` with the fuse at `(x, y)` armed; type and scratch flag are kept.
pub open spec fn arm_fuse(g: Seq<Particle>, x: int, y: int) -> Seq<Particle> {
    g.update(
        idx_of(x, y),
        Particle { pt: g[idx_of(x, y)].pt, should_burn: true, updated: g[idx_of(x, y)].updated },
    )
}

/// Fire's neighbor scan from slot `k` on: every Wood neighbor ignites to a
/// fresh Fire. Returns the resulting grid and whether any Wood was found
/// (`burnt` carries hits from earlier slots).
pub open spec fn fire_scan(g: Seq<Particle>, x: int, y: int, k: int, burnt: bool) -> (Seq<
    Particle,
>, bool)
    decreases 8 - k,
{
    if !(0 <= k < 8) {
        (g, burnt)
    } else {
        let c = nb(x, y, k);
        if is_type_at(g, c.0, c.1, ParticleType::Wood) {
            fire_scan(convert_cell(g, c.0, c.1, ParticleType::Fire), x, y, k + 1, true)
        } else {
            fire_scan(g, x, y, k + 1, burnt)
        }
    }
}

/// One tick of the Fire rule at `(x, y)`: an unarmed fuse arms and nothing
/// else happens; an armed Fire ignites every adjacent Wood, and burns out to
/// Smoke when it found none. Fire never moves.
pub open spec fn fire_step(g: Seq<Particle>, x: int, y: int) -> Seq<Particle> {
    if !g[idx_of(x, y)].should_burn {
        arm_fuse(g, x, y)
    } else {
        let r = fire_scan(g, x, y, 0, false);
        if r.1 {
            r.0
        } else {
            convert_cell(r.0, x, y, ParticleType::Smoke)
        }
    }
}

/// Lava's neighbor scan from slot `k` on: every Wood neighbor ignites to a
/// fresh Fire (no fuse delay, lava is not consumed); the first Water
/// neighbor evaporates — the lava cell itself turns to Steam and the Water
/// cell to Empty — and the evaporation part of the scan stops there.
/// Returns the resulting grid and whether an evaporation occurred.
pub open spec fn lava_scan(g: Seq<Particle>, x: int, y: int, k: int, evaporated: bool) -> (Seq<
    Particle,
>, bool)
    decreases 8 - k,
{
    if !(0 <= k < 8) {
        (g, evaporated)
    } else {
        let c = nb(x, y, k);
        let g1 = if is_type_at(g, c.0, c.1, ParticleType::Wood) {
            convert_cell(g, c.0, c.1, ParticleType::Fire)
        } else {
            g
        };
        if !evaporated && is_type_at(g1, c.0, c.1, ParticleType::Water) {
            lava_scan(
                set_type(set_type(g1, x, y, ParticleType::Steam), c.0, c.1, ParticleType::Empty),
                x,
                y,
                k + 1,
                true,
            )
        } else {
            lava_scan(g1, x, y, k + 1, evaporated)
        }
    }
}

/// One tick of the Lava rule at `(x, y)`: scan neighbors (ignition and
/// first-hit evaporation); if an evaporation occurred there is no movement
/// this tick, otherwise fall back to liquid movement.
pub open spec fn lava_step(g: Seq<Particle>, x: int, y: int) -> Seq<Particle> {
    let r = lava_scan(g, x, y, 0, false);
    if r.1 {
        r.0
    } else {
        liquid_move(r.0, x, y)
    }
}

/// Acid's corrosion scan from slot `k` on: the first Iron neighbor in the
/// fixed order is converted to a fresh Acid and the scan stops.
pub open spec fn acid_corrode(g: Seq<Particle>, x: int, y: int, k: int) -> Seq<Particle>
    decreases 8 - k,
{
    if !(0 <= k < 8) {
        g
    } else {
        let c = nb(x, y, k);
        if is_type_at(g, c.0, c.1, ParticleType::Iron) {
            convert_cell(g, c.0, c.1, ParticleType::Acid)
        } else {
            acid_corrode(g, x, y, k + 1)
        }
    }
}

/// One tick of the Acid rule at `(x, y)`: an unarmed fuse arms and nothing
/// else happens; an armed Acid corrodes at most the first Iron neighbor, and
/// always attempts liquid movement the same tick.
pub open spec fn acid_step(g: Seq<Particle>, x: int, y: int) -> Seq<Particle> {
    if !g[idx_of(x, y)].should_burn {
        arm_fuse(g, x, y)
    } else {
        liquid_move(acid_corrode(g, x, y, 0), x, y)
    }
}

/// Sand: solid movement only.
pub fn update_sand(x: u32, y: u32, particles: &mut Particles)
    requires
        grid_ok(old(particles)@),
        in_bounds(x as int, y as int),
    ensures
        grid_ok(final(particles)@),
        final(particles)@ == solid_move(old(particles)@, x as int, y as int),
{
    solid_particle_movement(x, y, particles);
}

/// Water: liquid movement only.
pub fn update_water(x: u32, y: u32, particles: &mut Particles)
    requires
        grid_ok(old(particles)@),
        in_bounds(x as int, y as int),
    ensures
        grid_ok(final(particles)@),
        final(particles)@ == liquid_move(old(particles)@, x as int, y as int),
{
    liquid_particle_movement(x, y, particles);
}

/// Smoke: gas movement only.
pub fn update_smoke(x: u32, y: u32, particles: &mut Particles)
    requires
        grid_ok(old(particles)@),
        in_bounds(x as int, y as int),
    ensures
        grid_ok(final(particles)@),
        final(particles)@ == gas_move(old(particles)@, x as int, y as int),
{
    gas_particle_movement(x, y, particles);
}

/// Steam: gas movement only.
pub fn update_steam(x: u32, y: u32, particles: &mut Particles)
    requires
        grid_ok(old(particles)@),
        in_bounds(x as int, y as int),
    ensures
        grid_ok(final(particles)@),
        final(particles)@ == gas_move(old(particles)@, x as int, y as int),
{
    gas_particle_movement(x, y, particles);
}

/// Performs one tick of the Fire rule at `(x, y)`.
pub fn update_fire(x: u32, y: u32, particles: &mut Particles)
    requires
        grid_ok(old(particles)@),
        in_bounds(x as int, y as int),
    ensures
        grid_ok(final(particles)@),
        final(particles)@ == fire_step(old(particles)@, x as int, y as int),
{
    let index: usize = point_to_index(x, y);
    let p: Particle = particles[index];
    if !p.should_burn {
        particles[index] = Particle { pt: p.pt, should_burn: true, updated: p.updated };
        return ;
    }
    let ghost g0 = particles@;
    let mut burnt: bool = false;
    let mut k: usize = 0;
    while k < 8
        invariant
            grid_ok(particles@),
            in_bounds(x as int, y as int),
            k <= 8,
            fire_scan(g0, x as int, y as int, 0, false) == fire_scan(
                particles@,
                x as int,
                y as int,
                k as int,
                burnt,
            ),
        decreases 8 - k,
    {
        let ghost gk = particles@;
        let ghost bk = burnt;
        match neighbor_at(x, y, k) {
            Some(c) => {
                if check_if_type(c.0, c.1, particles, ParticleType::Wood) {
                    let dest: usize = point_to_index(c.0, c.1);
                    let w: Particle = particles[dest];
                    particles[dest] = Particle {
                        pt: ParticleType::Fire,
                        should_burn: false,
                        updated: w.updated,
                    };
                    burnt = true;
                }
            },
            None => {},
        }
        proof {
            assert(fire_scan(gk, x as int, y as int, k as int, bk) == fire_scan(
                particles@,
                x as int,
                y as int,
                k as int + 1,
                burnt,
            ));
        }
        k = k + 1;
    }
    if !burnt {
        let q: Particle = particles[index];
        particles[index] = Particle {
            pt: ParticleType::Smoke,
            should_burn: false,
            updated: q.updated,
        };
    }
}

/// Performs one tick of the Lava rule at `(x, y)`.
pub fn update_lava(x: u32, y: u32, particles: &mut Particles)
    requires
        grid_ok(old(particles)@),
        in_bounds(x as int, y as int),
    ensures
        grid_ok(final(particles)@),
        final(particles)@ == lava_step(old(particles)@, x as int, y as int),
{
    let ghost g0 = particles@;
    let mut evaporated: bool = false;
    let mut k: usize = 0;
    while k < 8
        invariant
            grid_ok(particles@),
            in_bounds(x as int, y as int),
            k <= 8,
            lava_scan(g0, x as int, y as int, 0, false) == lava_scan(
                particles@,
                x as int,
                y as int,
                k as int,
                evaporated,
            ),
        decreases 8 - k,
    {
        let ghost gk = particles@;
        let ghost ek = evaporated;
        match neighbor_at(x, y, k) {
            Some(c) => {
                if check_if_type(c.0, c.1, particles, ParticleType::Wood) {
                    let dest: usize = point_to_index(c.0, c.1);
                    let w: Particle = particles[dest];
                    particles[dest] = Particle {
                        pt: ParticleType::Fire,
                        should_burn: false,
                        updated: w.updated,
                    };
                }
                if !evaporated && check_if_type(c.0, c.1, particles, ParticleType::Water) {
                    let index: usize = point_to_index(x, y);
                    let s: Particle = particles[index];
                    particles[index] = Particle {
                        pt: ParticleType::Steam,
                        should_burn: s.should_burn,
                        updated: s.updated,
                    };
                    let dest: usize = point_to_index(c.0, c.1);
                    proof {
                        lemma_idx_of_injective(x as int, y as int, c.0 as int, c.1 as int);
                    }
                    let w: Particle = particles[dest];
                    particles[dest] = Particle {
                        pt: ParticleType::Empty,
                        should_burn: w.should_burn,
                        updated: w.updated,
                    };
                    evaporated = true;
                }
            },
            None => {},
        }
        proof {
            assert(lava_scan(gk, x as int, y as int, k as int, ek) == lava_scan(
                particles@,
                x as int,
                y as int,
                k as int + 1,
                evaporated,
            ));
        }
        k = k + 1;
    }
    if !evaporated {
        liquid_particle_movement(x, y, particles);
    }
}

/// Performs one tick of the Acid rule at `(x, y)`.
pub fn update_acid(x: u32, y: u32, particles: &mut Particles)
    requires
        grid_ok(old(particles)@),
        in_bounds(x as int, y as int),
    ensures
        grid_ok(final(particles)@),
        final(particles)@ == acid_step(old(particles)@, x as int, y as int),
{
    let index: usize = point_to_index(x, y);
    let p: Particle = particles[index];
    if !p.should_burn {
        particles[index] = Particle { pt: p.pt, should_burn: true, updated: p.updated };
        return ;
    }
    let ghost g0 = particles@;
    let mut corroded: bool = false;
    let mut k: usize = 0;
    while k < 8
        invariant
            grid_ok(particles@),
            in_bounds(x as int, y as int),
            k <= 8,
            !corroded ==> particles@ == g0 && acid_corrode(g0, x as int, y as int, 0)
                == acid_corrode(g0, x as int, y as int, k as int),
            corroded ==> particles@ == acid_corrode(g0, x as int, y as int, 0),
        decreases 8 - k,
    {
        if !corroded {
            match neighbor_at(x, y, k) {
                Some(c) => {
                    if check_if_type(c.0, c.1, particles, ParticleType::Iron) {
                        let dest: usize = point_to_index(c.0, c.1);
                        let w: Particle = particles[dest];
                        particles[dest] = Particle {
                            pt: ParticleType::Acid,
                            should_burn: false,
                            updated: w.updated,
                        };
                        corroded = true;
                    }
                },
                None => {},
            }
        }
        k = k + 1;
    }
    proof {
        if !corroded {
            assert(acid_corrode(g0, x as int, y as int, 8) == g0);
        }
    }
    liquid_particle_movement(x, y, particles);
}

/// Fire's scan leaves every cell that does not hold Wood unchanged — in
/// particular the scanning Fire cell itself.
pub proof fn lemma_fire_scan_preserves_non_wood(
    g: Seq<Particle>,
    x: int,
    y: int,
    k: int,
    burnt: bool,
)
    requires
        grid_ok(g),
    ensures
        fire_scan(g, x, y, k, burnt).0.len() == g.len(),
        forall|j: int|
            0 <= j < g.len() && (#[trigger] g[j]).pt != ParticleType::Wood ==> fire_scan(
                g,
                x,
                y,
                k,
                burnt,
            ).0[j] == g[j],
    decreases 8 - k,
{
    if 0 <= k < 8 {
        let c = nb(x, y, k);
        if is_type_at(g, c.0, c.1, ParticleType::Wood) {
            let g1 = convert_cell(g, c.0, c.1, ParticleType::Fire);
            lemma_idx_of_bounds(c.0, c.1);
            lemma_fire_scan_preserves_non_wood(g1, x, y, k + 1, true);
            assert forall|j: int|
                0 <= j < g.len() && (#[trigger] g[j]).pt != ParticleType::Wood implies fire_scan(
                g,
                x,
                y,
                k,
                burnt,
            ).0[j] == g[j] by {
                assert(j != idx_of(c.0, c.1));
                assert(g1[j] == g[j]);
            }
        } else {
            lemma_fire_scan_preserves_non_wood(g, x, y, k + 1, burnt);
        }
    }
}

/// Whether some neighbor slot of `(x, y)` from `k` on holds Wood.
pub open spec fn wood_adjacent_from(g: Seq<Particle>, x: int, y: int, k: int) -> bool
    decreases 8 - k,
{
    if !(0 <= k < 8) {
        false
    } else {
        is_type_at(g, nb(x, y, k).0, nb(x, y, k).1, ParticleType::Wood) || wood_adjacent_from(
            g,
            x,
            y,
            k + 1,
        )
    }
}

/// Fire's scan reports Wood found exactly when some neighbor slot holds
/// Wood (or an earlier slot already had).
pub proof fn lemma_fire_scan_burnt(g: Seq<Particle>, x: int, y: int, k: int, burnt: bool)
    requires
        grid_ok(g),
    ensures
        fire_scan(g, x, y, k, burnt).1 == (burnt || wood_adjacent_from(g, x, y, k)),
    decreases 8 - k,
{
    if 0 <= k < 8 {
        let c = nb(x, y, k);
        if is_type_at(g, c.0, c.1, ParticleType::Wood) {
            let g1 = convert_cell(g, c.0, c.1, ParticleType::Fire);
            lemma_fire_scan_burnt(g1, x, y, k + 1, true);
        } else {
            lemma_fire_scan_burnt(g, x, y, k + 1, burnt);
        }
    }
}

/// Every Wood neighbor slot is ignited to a fresh unarmed Fire by the scan.
pub proof fn lemma_fire_scan_ignites(
    g: Seq<Particle>,
    x: int,
    y: int,
    k: int,
    burnt: bool,
    m: int,
)
    requires
        grid_ok(g),
        in_bounds(x, y),
        0 <= k <= m < 8,
        is_type_at(g, nb(x, y, m).0, nb(x, y, m).1, ParticleType::Wood),
    ensures
        fire_scan(g, x, y, k, burnt).0[idx_of(nb(x, y, m).0, nb(x, y, m).1)] == (Particle {
            pt: ParticleType::Fire,
            should_burn: false,
            updated: g[idx_of(nb(x, y, m).0, nb(x, y, m).1)].updated,
        }),
    decreases 8 - k,
{
    let c = nb(x, y, k);
    let cm = nb(x, y, m);
    lemma_idx_of_bounds(cm.0, cm.1);
    if k == m {
        let g1 = convert_cell(g, cm.0, cm.1, ParticleType::Fire);
        lemma_fire_scan_preserves_non_wood(g1, x, y, k + 1, true);
        assert(g1[idx_of(cm.0, cm.1)] == Particle {
            pt: ParticleType::Fire,
            should_burn: false,
            updated: g[idx_of(cm.0, cm.1)].updated,
        });
        assert(fire_scan(g1, x, y, k + 1, true).0[idx_of(cm.0, cm.1)] == g1[idx_of(cm.0, cm.1)]);
    } else {
        if is_type_at(g, c.0, c.1, ParticleType::Wood) {
            let g1 = convert_cell(g, c.0, c.1, ParticleType::Fire);
            lemma_nb_distinct(x, y, k, m);
            lemma_idx_of_injective(c.0, c.1, cm.0, cm.1);
            lemma_fire_scan_ignites(g1, x, y, k + 1, true, m);
        } else {
            lemma_fire_scan_ignites(g, x, y, k + 1, burnt, m);
        }
    }
}

/// With no Wood among the remaining neighbor slots the scan changes
/// nothing.
pub proof fn lemma_fire_scan_no_wood(g: Seq<Particle>, x: int, y: int, k: int, burnt: bool)
    requires
        !wood_adjacent_from(g, x, y, k),
    ensures
        fire_scan(g, x, y, k, burnt) == (g, burnt),
    decreases 8 - k,
{
    if 0 <= k < 8 {
        lemma_fire_scan_no_wood(g, x, y, k + 1, burnt);
    }
}

/// Fire fuse delay. A fresh (unarmed) Fire cell only arms its fuse on the
/// tick it is dispatched and changes nothing else — it cannot ignite a
/// neighbor the tick it was created. An armed Fire ignites every adjacent
/// Wood as a fresh unarmed Fire and itself stays put; an armed Fire with no
/// adjacent Wood burns out to Smoke.
pub proof fn lemma_fire_fuse_delay(g: Seq<Particle>, x: int, y: int)
    requires
        grid_ok(g),
        in_bounds(x, y),
        g[idx_of(x, y)].pt == ParticleType::Fire,
    ensures
        !g[idx_of(x, y)].should_burn ==> fire_step(g, x, y) == arm_fuse(g, x, y),
        g[idx_of(x, y)].should_burn ==> forall|m: int|
            #![trigger nb(x, y, m)]
            0 <= m < 8 && is_type_at(g, nb(x, y, m).0, nb(x, y, m).1, ParticleType::Wood)
                ==> fire_step(g, x, y)[idx_of(nb(x, y, m).0, nb(x, y, m).1)] == (Particle {
                pt: ParticleType::Fire,
                should_burn: false,
                updated: g[idx_of(nb(x, y, m).0, nb(x, y, m).1)].updated,
            }),
        g[idx_of(x, y)].should_burn && wood_adjacent_from(g, x, y, 0) ==> fire_step(g, x, y)[idx_of(
            x,
            y,
        )] == g[idx_of(x, y)],
        g[idx_of(x, y)].should_burn && !wood_adjacent_from(g, x, y, 0) ==> fire_step(g, x, y)
            == convert_cell(g, x, y, ParticleType::Smoke),
{
    lemma_idx_of_bounds(x, y);
    if g[idx_of(x, y)].should_burn {
        lemma_fire_scan_burnt(g, x, y, 0, false);
        lemma_fire_scan_preserves_non_wood(g, x, y, 0, false);
        assert forall|m: int|
            #![trigger nb(x, y, m)]
            0 <= m < 8 && is_type_at(g, nb(x, y, m).0, nb(x, y, m).1, ParticleType::Wood)
            implies fire_step(g, x, y)[idx_of(nb(x, y, m).0, nb(x, y, m).1)] == (Particle {
            pt: ParticleType::Fire,
            should_burn: false,
            updated: g[idx_of(nb(x, y, m).0, nb(x, y, m).1)].updated,
        }) by {
            lemma_fire_scan_ignites(g, x, y, 0, false, m);
        }
        if !wood_adjacent_from(g, x, y, 0) {
            lemma_fire_scan_no_wood(g, x, y, 0, false);
        }
    }
}

/// With no Iron among the remaining neighbor slots the corrosion scan
/// changes nothing.
pub proof fn lemma_acid_corrode_no_iron(g: Seq<Particle>, x: int, y: int, k: int)
    requires
        forall|m: int|
            #![trigger nb(x, y, m)]
            k <= m < 8 ==> !is_type_at(g, nb(x, y, m).0, nb(x, y, m).1, ParticleType::Iron),
    ensures
        acid_corrode(g, x, y, k) == g,
    decreases 8 - k,
{
    if 0 <= k < 8 {
        lemma_acid_corrode_no_iron(g, x, y, k + 1);
    }
}

/// The corrosion scan converts exactly the first Iron neighbor in the fixed
/// order and stops there.
pub proof fn lemma_acid_corrode_first_iron(g: Seq<Particle>, x: int, y: int, k: int, m: int)
    requires
        grid_ok(g),
        0 <= k <= m < 8,
        is_type_at(g, nb(x, y, m).0, nb(x, y, m).1, ParticleType::Iron),
        forall|j: int|
            #![trigger nb(x, y, j)]
            k <= j < m ==> !is_type_at(g, nb(x, y, j).0, nb(x, y, j).1, ParticleType::Iron),
    ensures
        acid_corrode(g, x, y, k) == convert_cell(g, nb(x, y, m).0, nb(x, y, m).1, ParticleType::Acid),
    decreases m - k,
{
    if k < m {
        lemma_acid_corrode_first_iron(g, x, y, k + 1, m);
    }
}

/// Liquid movement changes at most the moving cell and its destination;
/// every other cell is untouched.
pub proof fn lemma_liquid_move_changes_only_self_and_dest(g: Seq<Particle>, x: int, y: int)
    requires
        grid_ok(g),
        in_bounds(x, y),
    ensures
        liquid_move(g, x, y).len() == g.len(),
        forall|j: int|
            0 <= j < g.len() && j != idx_of(x, y) && (match liquid_dest(g, x, y) {
                Some(d) => j != idx_of(d.0, d.1),
                None => true,
            }) ==> liquid_move(g, x, y)[j] == #[trigger] g[j],
{
}

/// Acid corrosion single-target: an armed Acid adjacent to Iron in two
/// different neighbor-order positions converts only the first one (per the
/// fixed order) to a fresh Acid, leaves the second Iron untouched, and the
/// acid cell still attempts liquid movement the same tick.
pub proof fn lemma_acid_corrosion_single_target(
    g: Seq<Particle>,
    x: int,
    y: int,
    m1: int,
    m2: int,
)
    requires
        grid_ok(g),
        in_bounds(x, y),
        g[idx_of(x, y)].pt == ParticleType::Acid,
        g[idx_of(x, y)].should_burn,
        0 <= m1 < m2 < 8,
        is_type_at(g, nb(x, y, m1).0, nb(x, y, m1).1, ParticleType::Iron),
        is_type_at(g, nb(x, y, m2).0, nb(x, y, m2).1, ParticleType::Iron),
        forall|j: int|
            #![trigger nb(x, y, j)]
            0 <= j < m1 ==> !is_type_at(g, nb(x, y, j).0, nb(x, y, j).1, ParticleType::Iron),
    ensures
        acid_step(g, x, y) == liquid_move(
            convert_cell(g, nb(x, y, m1).0, nb(x, y, m1).1, ParticleType::Acid),
            x,
            y,
        ),
        acid_step(g, x, y)[idx_of(nb(x, y, m1).0, nb(x, y, m1).1)] == (Particle {
            pt: ParticleType::Acid,
            should_burn: false,
            updated: g[idx_of(nb(x, y, m1).0, nb(x, y, m1).1)].updated,
        }),
        acid_step(g, x, y)[idx_of(nb(x, y, m2).0, nb(x, y, m2).1)].pt == ParticleType::Iron,
{
    let c1 = nb(x, y, m1);
    let c2 = nb(x, y, m2);
    lemma_idx_of_bounds(x, y);
    lemma_idx_of_bounds(c1.0, c1.1);
    lemma_idx_of_bounds(c2.0, c2.1);
    lemma_nb_distinct(x, y, m1, m2);
    lemma_idx_of_injective(c1.0, c1.1, c2.0, c2.1);
    lemma_idx_of_injective(c1.0, c1.1, x, y);
    lemma_idx_of_injective(c2.0, c2.1, x, y);
    lemma_acid_corrode_first_iron(g, x, y, 0, m1);
    let g1 = convert_cell(g, c1.0, c1.1, ParticleType::Acid);
    lemma_liquid_move_changes_only_self_and_dest(g1, x, y);
    match liquid_dest(g1, x, y) {
        Some(d) => {
            assert(g1[idx_of(d.0, d.1)].pt == ParticleType::Empty);
            assert(g1[idx_of(c1.0, c1.1)].pt == ParticleType::Acid);
            assert(g1[idx_of(c2.0, c2.1)].pt == ParticleType::Iron);
        },
        None => {},
    }
}

/// After an evaporation the rest of lava's scan only ignites Wood: every
/// cell that does not hold Wood is preserved, and the scan still reports
/// the evaporation.
pub proof fn lemma_lava_scan_evaporated_preserves(g: Seq<Particle>, x: int, y: int, k: int)
    requires
        grid_ok(g),
    ensures
        lava_scan(g, x, y, k, true).1,
        lava_scan(g, x, y, k, true).0.len() == g.len(),
        forall|j: int|
            0 <= j < g.len() && (#[trigger] g[j]).pt != ParticleType::Wood ==> lava_scan(
                g,
                x,
                y,
                k,
                true,
            ).0[j] == g[j],
    decreases 8 - k,
{
    if 0 <= k < 8 {
        let c = nb(x, y, k);
        if is_type_at(g, c.0, c.1, ParticleType::Wood) {
            let g1 = convert_cell(g, c.0, c.1, ParticleType::Fire);
            lemma_idx_of_bounds(c.0, c.1);
            lemma_lava_scan_evaporated_preserves(g1, x, y, k + 1);
            assert forall|j: int|
                0 <= j < g.len() && (#[trigger] g[j]).pt != ParticleType::Wood implies lava_scan(
                g,
                x,
                y,
                k,
                true,
            ).0[j] == g[j] by {
                assert(j != idx_of(c.0, c.1));
                assert(g1[j] == g[j]);
            }
        } else {
            lemma_lava_scan_evaporated_preserves(g, x, y, k + 1);
        }
    }
}

/// With exactly one Water among the remaining neighbor slots, lava's scan
/// evaporates: the scanning cell ends as Steam, the Water cell as Empty.
pub proof fn lemma_lava_scan_single_water(g: Seq<Particle>, x: int, y: int, k: int, m: int)
    requires
        grid_ok(g),
        in_bounds(x, y),
        0 <= k <= m < 8,
        is_type_at(g, nb(x, y, m).0, nb(x, y, m).1, ParticleType::Water),
        forall|j: int|
            #![trigger nb(x, y, j)]
            k <= j < 8 && j != m ==> !is_type_at(g, nb(x, y, j).0, nb(x, y, j).1, ParticleType::Water),
    ensures
        lava_scan(g, x, y, k, false).1,
        lava_scan(g, x, y, k, false).0.len() == g.len(),
        lava_scan(g, x, y, k, false).0[idx_of(x, y)].pt == ParticleType::Steam,
        lava_scan(g, x, y, k, false).0[idx_of(nb(x, y, m).0, nb(x, y, m).1)].pt
            == ParticleType::Empty,
    decreases m - k,
{
    let c = nb(x, y, k);
    let cm = nb(x, y, m);
    lemma_idx_of_bounds(x, y);
    lemma_idx_of_bounds(cm.0, cm.1);
    lemma_nb_distinct(x, y, m, k);
    lemma_idx_of_injective(cm.0, cm.1, x, y);
    if k == m {
        let g2 = set_type(set_type(g, x, y, ParticleType::Steam), cm.0, cm.1, ParticleType::Empty);
        assert(g2[idx_of(x, y)].pt == ParticleType::Steam);
        assert(g2[idx_of(cm.0, cm.1)].pt == ParticleType::Empty);
        lemma_lava_scan_evaporated_preserves(g2, x, y, k + 1);
    } else {
        if is_type_at(g, c.0, c.1, ParticleType::Wood) {
            let g1 = convert_cell(g, c.0, c.1, ParticleType::Fire);
            lemma_idx_of_bounds(c.0, c.1);
            assert forall|j: int|
                #![trigger nb(x, y, j)]
                k + 1 <= j < 8 && j != m implies !is_type_at(
                g1,
                nb(x, y, j).0,
                nb(x, y, j).1,
                ParticleType::Water,
            ) by {
                let cj = nb(x, y, j);
                if in_bounds(cj.0, cj.1) {
                    if cj == c {
                        assert(g1[idx_of(cj.0, cj.1)].pt == ParticleType::Fire);
                    } else {
                        lemma_idx_of_injective(cj.0, cj.1, c.0, c.1);
                    }
                }
            }
            lemma_nb_distinct(x, y, m, k);
            lemma_idx_of_injective(cm.0, cm.1, c.0, c.1);
            lemma_lava_scan_single_water(g1, x, y, k + 1, m);
        } else {
            lemma_lava_scan_single_water(g, x, y, k + 1, m);
        }
    }
}

/// Lava evaporation: a Lava cell adjacent to exactly one Water cell
/// converts itself to Steam and the Water cell to Empty in the same tick it
/// detects the adjacency, and performs no movement that tick.
pub proof fn lemma_lava_evaporation(g: Seq<Particle>, x: int, y: int, m: int)
    requires
        grid_ok(g),
        in_bounds(x, y),
        g[idx_of(x, y)].pt == ParticleType::Lava,
        0 <= m < 8,
        is_type_at(g, nb(x, y, m).0, nb(x, y, m).1, ParticleType::Water),
        forall|j: int|
            #![trigger nb(x, y, j)]
            0 <= j < 8 && j != m ==> !is_type_at(g, nb(x, y, j).0, nb(x, y, j).1, ParticleType::Water),
    ensures
        lava_step(g, x, y) == lava_scan(g, x, y, 0, false).0,
        lava_step(g, x, y)[idx_of(x, y)].pt == ParticleType::Steam,
        lava_step(g, x, y)[idx_of(nb(x, y, m).0, nb(x, y, m).1)].pt == ParticleType::Empty,
{
    lemma_lava_scan_single_water(g, x, y, 0, m);
}

} // verus!
