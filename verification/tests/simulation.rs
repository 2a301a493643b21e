use falling_sand::cells::{ParticleType, GRID_LEN, WORLD_HEIGHT, WORLD_WIDTH};
use falling_sand::grid::{cell_at, new_particles, paint};
use falling_sand::tick::update_particles;

#[test]
fn sand_falls_exactly_one_row_per_tick() {
    let mut world = new_particles();
    paint(10, 0, 0, ParticleType::Sand, &mut world);
    for step in 0..(WORLD_HEIGHT - 1) {
        assert_eq!(cell_at(10, step, &world), ParticleType::Sand);
        update_particles(&mut world);
        assert_eq!(cell_at(10, step, &world), ParticleType::Empty);
        assert_eq!(cell_at(10, step + 1, &world), ParticleType::Sand);
    }
    // On the bottom row the sand rests.
    update_particles(&mut world);
    assert_eq!(cell_at(10, WORLD_HEIGHT - 1, &world), ParticleType::Sand);
}

#[test]
fn sand_lands_on_wood() {
    let mut world = new_particles();
    paint(20, 100, 0, ParticleType::Wood, &mut world);
    paint(19, 100, 0, ParticleType::Wood, &mut world);
    paint(21, 100, 0, ParticleType::Wood, &mut world);
    paint(20, 98, 0, ParticleType::Sand, &mut world);
    update_particles(&mut world);
    assert_eq!(cell_at(20, 99, &world), ParticleType::Sand);
    update_particles(&mut world);
    // Straight down, down-left and down-right are all blocked by Wood.
    assert_eq!(cell_at(20, 99, &world), ParticleType::Sand);
    assert_eq!(cell_at(20, 100, &world), ParticleType::Wood);
}

#[test]
fn sand_sinks_through_water() {
    let mut world = new_particles();
    // Box the water in so only the density swap can move it.
    paint(30, WORLD_HEIGHT - 1, 0, ParticleType::Water, &mut world);
    paint(29, WORLD_HEIGHT - 1, 0, ParticleType::Wood, &mut world);
    paint(31, WORLD_HEIGHT - 1, 0, ParticleType::Wood, &mut world);
    paint(30, WORLD_HEIGHT - 2, 0, ParticleType::Sand, &mut world);
    update_particles(&mut world);
    assert_eq!(cell_at(30, WORLD_HEIGHT - 1, &world), ParticleType::Sand);
    assert_eq!(cell_at(30, WORLD_HEIGHT - 2, &world), ParticleType::Water);
}

#[test]
fn water_prefers_straight_down() {
    let mut world = new_particles();
    paint(40, 100, 0, ParticleType::Water, &mut world);
    update_particles(&mut world);
    // Down, down-left and down-right were all Empty: down wins.
    assert_eq!(cell_at(40, 100, &world), ParticleType::Empty);
    assert_eq!(cell_at(39, 101, &world), ParticleType::Empty);
    assert_eq!(cell_at(41, 101, &world), ParticleType::Empty);
    assert_eq!(cell_at(40, 101, &world), ParticleType::Water);
}

#[test]
fn water_priority_down_left_before_down_right() {
    let mut world = new_particles();
    let bottom = WORLD_HEIGHT - 1;
    paint(45, bottom - 1, 0, ParticleType::Water, &mut world);
    paint(45, bottom, 0, ParticleType::Wood, &mut world);
    update_particles(&mut world);
    assert_eq!(cell_at(44, bottom, &world), ParticleType::Water);
    assert_eq!(cell_at(46, bottom, &world), ParticleType::Empty);
}

#[test]
fn water_priority_down_right_when_down_left_blocked() {
    let mut world = new_particles();
    let bottom = WORLD_HEIGHT - 1;
    paint(50, bottom - 1, 0, ParticleType::Water, &mut world);
    paint(50, bottom, 0, ParticleType::Wood, &mut world);
    paint(49, bottom, 0, ParticleType::Wood, &mut world);
    update_particles(&mut world);
    assert_eq!(cell_at(51, bottom, &world), ParticleType::Water);
}

#[test]
fn water_priority_left_when_all_below_blocked() {
    let mut world = new_particles();
    let bottom = WORLD_HEIGHT - 1;
    paint(55, bottom - 1, 0, ParticleType::Water, &mut world);
    paint(55, bottom, 0, ParticleType::Wood, &mut world);
    paint(54, bottom, 0, ParticleType::Wood, &mut world);
    paint(56, bottom, 0, ParticleType::Wood, &mut world);
    update_particles(&mut world);
    assert_eq!(cell_at(54, bottom - 1, &world), ParticleType::Water);
}

#[test]
fn water_priority_right_when_left_blocked_too() {
    let mut world = new_particles();
    let bottom = WORLD_HEIGHT - 1;
    paint(60, bottom - 1, 0, ParticleType::Water, &mut world);
    paint(60, bottom, 0, ParticleType::Wood, &mut world);
    paint(59, bottom, 0, ParticleType::Wood, &mut world);
    paint(61, bottom, 0, ParticleType::Wood, &mut world);
    paint(59, bottom - 1, 0, ParticleType::Wood, &mut world);
    update_particles(&mut world);
    assert_eq!(cell_at(61, bottom - 1, &world), ParticleType::Water);
}

#[test]
fn fire_ignites_wood_only_after_fuse_tick() {
    let mut world = new_particles();
    paint(70, 100, 0, ParticleType::Fire, &mut world);
    paint(71, 100, 0, ParticleType::Wood, &mut world);
    // Tick one: the fresh fire only arms its fuse; the wood is untouched.
    update_particles(&mut world);
    assert_eq!(cell_at(70, 100, &world), ParticleType::Fire);
    assert_eq!(cell_at(71, 100, &world), ParticleType::Wood);
    // Tick two: the armed fire ignites the adjacent wood and keeps burning.
    update_particles(&mut world);
    assert_eq!(cell_at(70, 100, &world), ParticleType::Fire);
    assert_eq!(cell_at(71, 100, &world), ParticleType::Fire);
}

#[test]
fn fire_without_wood_burns_out_to_smoke() {
    let mut world = new_particles();
    paint(80, 100, 0, ParticleType::Fire, &mut world);
    update_particles(&mut world);
    assert_eq!(cell_at(80, 100, &world), ParticleType::Fire);
    update_particles(&mut world);
    // Armed, found no wood: burns out in place.
    assert_eq!(cell_at(80, 100, &world), ParticleType::Smoke);
    // The smoke then rises on the next tick.
    update_particles(&mut world);
    assert_eq!(cell_at(80, 100, &world), ParticleType::Empty);
    assert_eq!(cell_at(80, 99, &world), ParticleType::Smoke);
}

#[test]
fn fire_never_moves() {
    let mut world = new_particles();
    paint(90, 100, 0, ParticleType::Fire, &mut world);
    paint(91, 100, 0, ParticleType::Wood, &mut world);
    update_particles(&mut world);
    assert_eq!(cell_at(90, 100, &world), ParticleType::Fire);
    update_particles(&mut world);
    // Both ticks the fire stayed put, with empty cells all around it.
    assert_eq!(cell_at(90, 100, &world), ParticleType::Fire);
    assert_eq!(cell_at(90, 101, &world), ParticleType::Empty);
    assert_eq!(cell_at(89, 100, &world), ParticleType::Empty);
    assert_eq!(cell_at(90, 99, &world), ParticleType::Empty);
}

#[test]
fn acid_corrodes_only_first_iron_in_neighbor_order() {
    let mut world = new_particles();
    let bottom = WORLD_HEIGHT - 1;
    // East comes before West in the neighbor order, so the eastern iron is
    // the single target; movement is blocked on every side.
    paint(100, bottom, 0, ParticleType::Acid, &mut world);
    paint(101, bottom, 0, ParticleType::Iron, &mut world);
    paint(99, bottom, 0, ParticleType::Iron, &mut world);
    // Tick one: the fresh acid only arms its fuse.
    update_particles(&mut world);
    assert_eq!(cell_at(101, bottom, &world), ParticleType::Iron);
    assert_eq!(cell_at(99, bottom, &world), ParticleType::Iron);
    // Tick two: exactly the first iron (east) is corroded.
    update_particles(&mut world);
    assert_eq!(cell_at(101, bottom, &world), ParticleType::Acid);
    assert_eq!(cell_at(99, bottom, &world), ParticleType::Iron);
    assert_eq!(cell_at(100, bottom, &world), ParticleType::Acid);
}

#[test]
fn acid_still_moves_on_its_corrosion_tick() {
    let mut world = new_particles();
    paint(110, 100, 0, ParticleType::Acid, &mut world);
    paint(111, 100, 0, ParticleType::Iron, &mut world);
    // Tick one arms the fuse; the arming tick performs no movement.
    update_particles(&mut world);
    assert_eq!(cell_at(110, 100, &world), ParticleType::Acid);
    // Tick two corrodes the iron and the acid falls the same tick.
    update_particles(&mut world);
    assert_eq!(cell_at(111, 100, &world), ParticleType::Acid);
    assert_eq!(cell_at(110, 100, &world), ParticleType::Empty);
    assert_eq!(cell_at(110, 101, &world), ParticleType::Acid);
}

#[test]
fn lava_evaporates_one_water_and_does_not_move() {
    let mut world = new_particles();
    let bottom = WORLD_HEIGHT - 1;
    paint(120, bottom, 0, ParticleType::Lava, &mut world);
    paint(121, bottom, 0, ParticleType::Water, &mut world);
    // Box the water in so it cannot flow away before the lava acts.
    paint(122, bottom, 0, ParticleType::Wood, &mut world);
    update_particles(&mut world);
    assert_eq!(cell_at(120, bottom, &world), ParticleType::Steam);
    assert_eq!(cell_at(121, bottom, &world), ParticleType::Empty);
    assert_eq!(cell_at(122, bottom, &world), ParticleType::Wood);
    // No movement happened on the evaporation tick: the cell left of the
    // lava stayed empty.
    assert_eq!(cell_at(119, bottom, &world), ParticleType::Empty);
}

#[test]
fn lava_ignites_wood_without_fuse_delay_and_flows() {
    let mut world = new_particles();
    let bottom = WORLD_HEIGHT - 1;
    paint(130, bottom, 0, ParticleType::Lava, &mut world);
    paint(131, bottom, 0, ParticleType::Wood, &mut world);
    update_particles(&mut world);
    // The wood ignites the very tick the lava sees it.
    assert_eq!(cell_at(131, bottom, &world), ParticleType::Fire);
    // No evaporation happened, so the lava fell back to liquid movement:
    // down and the diagonals are off-grid, so it spread left.
    assert_eq!(cell_at(130, bottom, &world), ParticleType::Empty);
    assert_eq!(cell_at(129, bottom, &world), ParticleType::Lava);
}

#[test]
fn smoke_rises_and_pins_at_the_ceiling() {
    let mut world = new_particles();
    paint(140, 2, 0, ParticleType::Smoke, &mut world);
    update_particles(&mut world);
    assert_eq!(cell_at(140, 1, &world), ParticleType::Smoke);
    update_particles(&mut world);
    assert_eq!(cell_at(140, 0, &world), ParticleType::Smoke);
    // On the top row the gas attempts no move at all, not even sideways.
    update_particles(&mut world);
    assert_eq!(cell_at(140, 0, &world), ParticleType::Smoke);
    assert_eq!(cell_at(139, 0, &world), ParticleType::Empty);
    assert_eq!(cell_at(141, 0, &world), ParticleType::Empty);
}

#[test]
fn steam_rises_like_smoke() {
    let mut world = new_particles();
    paint(150, 50, 0, ParticleType::Steam, &mut world);
    update_particles(&mut world);
    assert_eq!(cell_at(150, 50, &world), ParticleType::Empty);
    assert_eq!(cell_at(150, 49, &world), ParticleType::Steam);
}

#[test]
fn stacked_sand_can_displace_the_same_water_twice_per_tick() {
    let mut world = new_particles();
    let bottom = WORLD_HEIGHT - 1;
    // Water boxed in at the bottom, two sand grains stacked above it.
    // Displacement eligibility is decided by cell type alone, not by the
    // per-tick handled flag, so the water pushed up by the lower sand is
    // displaced again by the upper sand within the same tick.
    paint(170, bottom, 0, ParticleType::Water, &mut world);
    paint(169, bottom, 0, ParticleType::Wood, &mut world);
    paint(171, bottom, 0, ParticleType::Wood, &mut world);
    paint(170, bottom - 1, 0, ParticleType::Sand, &mut world);
    paint(170, bottom - 2, 0, ParticleType::Sand, &mut world);
    update_particles(&mut world);
    assert_eq!(cell_at(170, bottom, &world), ParticleType::Sand);
    assert_eq!(cell_at(170, bottom - 1, &world), ParticleType::Sand);
    assert_eq!(cell_at(170, bottom - 2, &world), ParticleType::Water);
}

#[test]
fn no_cell_keeps_its_processed_flag_between_ticks() {
    let mut world = new_particles();
    paint(10, 10, 2, ParticleType::Sand, &mut world);
    paint(30, 100, 3, ParticleType::Water, &mut world);
    paint(100, 140, 2, ParticleType::Lava, &mut world);
    update_particles(&mut world);
    for i in 0..GRID_LEN {
        assert!(!world[i].updated);
    }
}

#[test]
fn particles_on_grid_edges_move_safely() {
    let mut world = new_particles();
    // Movement attempts in every corner and along every edge must clip
    // rather than underflow or overflow the coordinate space.
    paint(0, 0, 0, ParticleType::Sand, &mut world);
    paint(WORLD_WIDTH - 1, 0, 0, ParticleType::Water, &mut world);
    paint(0, WORLD_HEIGHT - 1, 0, ParticleType::Smoke, &mut world);
    paint(WORLD_WIDTH - 1, WORLD_HEIGHT - 1, 0, ParticleType::Lava, &mut world);
    for _ in 0..4 {
        update_particles(&mut world);
    }
    // The sand and water fell straight down; the smoke rose; the lava,
    // blocked below, spread left along the bottom row.
    assert_eq!(cell_at(0, 4, &world), ParticleType::Sand);
    assert_eq!(cell_at(WORLD_WIDTH - 1, 4, &world), ParticleType::Water);
    assert_eq!(cell_at(0, WORLD_HEIGHT - 5, &world), ParticleType::Smoke);
    assert_eq!(cell_at(WORLD_WIDTH - 5, WORLD_HEIGHT - 1, &world), ParticleType::Lava);
}
