use falling_sand::cells::{ParticleType, GRID_LEN, WORLD_HEIGHT, WORLD_WIDTH};
use falling_sand::coords::{gen_adjacent_cell_list, index_to_point, point_to_index};
use falling_sand::grid::{
    cell_at, check_if_empty, check_if_type, dimensions, new_particles, paint, swap,
};

#[test]
fn dimensions_report_grid_size() {
    assert_eq!(dimensions(), (WORLD_WIDTH, WORLD_HEIGHT));
    assert_eq!((WORLD_WIDTH * WORLD_HEIGHT) as usize, GRID_LEN);
}

#[test]
fn index_layout_is_bottom_up_right_to_left() {
    // The bottom-right cell is index 0; indices grow right-to-left within a
    // row and bottom-to-top across rows.
    assert_eq!(point_to_index(WORLD_WIDTH - 1, WORLD_HEIGHT - 1), 0);
    assert_eq!(point_to_index(0, WORLD_HEIGHT - 1), (WORLD_WIDTH - 1) as usize);
    assert_eq!(point_to_index(WORLD_WIDTH - 1, WORLD_HEIGHT - 2), WORLD_WIDTH as usize);
    assert_eq!(point_to_index(0, 0), GRID_LEN - 1);
    // Lower rows (larger y) come strictly before upper rows.
    assert!(point_to_index(0, 100) < point_to_index(199, 99));
}

#[test]
fn coordinate_index_bijection_round_trips() {
    for y in 0..WORLD_HEIGHT {
        for x in 0..WORLD_WIDTH {
            let i = point_to_index(x, y);
            assert!(i < GRID_LEN);
            assert_eq!(index_to_point(i), (x, y));
        }
    }
    for i in 0..GRID_LEN {
        let (x, y) = index_to_point(i);
        assert_eq!(point_to_index(x, y), i);
    }
}

#[test]
fn new_world_is_all_empty() {
    let world = new_particles();
    assert_eq!(world.len(), GRID_LEN);
    for p in world.iter() {
        assert_eq!(p.pt, ParticleType::Empty);
        assert!(!p.should_burn);
        assert!(!p.updated);
    }
}

#[test]
fn neighbor_order_is_e_w_s_n_se_sw_ne_nw() {
    let cells = gen_adjacent_cell_list(5, 7);
    assert_eq!(
        cells,
        vec![(6, 7), (4, 7), (5, 8), (5, 6), (6, 8), (4, 8), (6, 6), (4, 6)]
    );
}

#[test]
fn neighbors_are_clipped_at_corners() {
    // Top-left corner: only E, S and SE exist; x - 1 and y - 1 never underflow.
    assert_eq!(gen_adjacent_cell_list(0, 0), vec![(1, 0), (0, 1), (1, 1)]);
    // Bottom-right corner: only W, N and NW exist.
    let x = WORLD_WIDTH - 1;
    let y = WORLD_HEIGHT - 1;
    assert_eq!(
        gen_adjacent_cell_list(x, y),
        vec![(x - 1, y), (x, y - 1), (x - 1, y - 1)]
    );
}

#[test]
fn check_if_type_rejects_out_of_bounds() {
    let world = new_particles();
    assert!(!check_if_type(WORLD_WIDTH, 0, &world, ParticleType::Empty));
    assert!(!check_if_type(0, WORLD_HEIGHT, &world, ParticleType::Empty));
    assert!(!check_if_empty(WORLD_WIDTH, WORLD_HEIGHT, &world));
    assert!(check_if_empty(0, 0, &world));
}

#[test]
fn paint_fills_a_clipped_square() {
    let mut world = new_particles();
    paint(10, 10, 2, ParticleType::Sand, &mut world);
    for y in 0..WORLD_HEIGHT {
        for x in 0..WORLD_WIDTH {
            let expect_sand = 8 <= x && x <= 12 && 8 <= y && y <= 12;
            let got = cell_at(x, y, &world);
            if expect_sand {
                assert_eq!(got, ParticleType::Sand);
            } else {
                assert_eq!(got, ParticleType::Empty);
            }
        }
    }
}

#[test]
fn paint_radius_zero_sets_one_cell() {
    let mut world = new_particles();
    paint(3, 4, 0, ParticleType::Wood, &mut world);
    assert_eq!(cell_at(3, 4, &world), ParticleType::Wood);
    assert_eq!(cell_at(2, 4, &world), ParticleType::Empty);
    assert_eq!(cell_at(4, 4, &world), ParticleType::Empty);
    assert_eq!(cell_at(3, 3, &world), ParticleType::Empty);
    assert_eq!(cell_at(3, 5, &world), ParticleType::Empty);
}

#[test]
fn paint_at_boundaries_never_goes_out_of_bounds() {
    let mut world = new_particles();
    paint(0, 0, 3, ParticleType::Iron, &mut world);
    paint(WORLD_WIDTH - 1, WORLD_HEIGHT - 1, 3, ParticleType::Wood, &mut world);
    paint(0, WORLD_HEIGHT - 1, 2, ParticleType::Sand, &mut world);
    paint(WORLD_WIDTH - 1, 0, 2, ParticleType::Water, &mut world);
    assert_eq!(cell_at(0, 0, &world), ParticleType::Iron);
    assert_eq!(cell_at(3, 3, &world), ParticleType::Iron);
    assert_eq!(cell_at(4, 4, &world), ParticleType::Empty);
    assert_eq!(cell_at(WORLD_WIDTH - 1, WORLD_HEIGHT - 1, &world), ParticleType::Wood);
    assert_eq!(cell_at(0, WORLD_HEIGHT - 1, &world), ParticleType::Sand);
    assert_eq!(cell_at(WORLD_WIDTH - 1, 0, &world), ParticleType::Water);
}

#[test]
fn swap_exchanges_cells_and_marks_destination() {
    let mut world = new_particles();
    paint(5, 5, 0, ParticleType::Sand, &mut world);
    let i = point_to_index(5, 5);
    let j = point_to_index(5, 6);
    swap(i, j, &mut world);
    assert_eq!(cell_at(5, 5, &world), ParticleType::Empty);
    assert_eq!(cell_at(5, 6, &world), ParticleType::Sand);
    assert!(world[j].updated);
    assert!(!world[i].updated);
}
