//! The coordinate mapper: a bijection between grid positions `(x, y)` and
//! flat cell indices, plus the fixed 8-neighbor enumeration.
//!
//! The flat layout stores the bottom row (largest `y`) first and scans each
//! row right to left, so an ascending index walk visits lower rows before
//! upper rows — the raster order the tick scheduler depends on.

use vstd::prelude::*;
use vstd::arithmetic::div_mod::{lemma_fundamental_div_mod, lemma_fundamental_div_mod_converse};

use crate::cells::{GRID_LEN, WORLD_HEIGHT, WORLD_WIDTH, WORLD_X_UPPER_BOUND, WORLD_Y_UPPER_BOUND};

verus! {

/// Whether `(x, y)` is a valid grid coordinate.
pub open spec fn in_bounds(x: int, y: int) -> bool {
    0 <= x < WORLD_WIDTH && 0 <= y < WORLD_HEIGHT
}

/// The flat index of cell `(x, y)`.
pub open spec fn idx_of(x: int, y: int) -> int {
    (WORLD_Y_UPPER_BOUND - y) * WORLD_WIDTH + (WORLD_X_UPPER_BOUND - x)
}

/// The x coordinate of the cell at flat index `i`.
pub open spec fn x_of(i: int) -> int {
    WORLD_X_UPPER_BOUND - i % (WORLD_WIDTH as int)
}

/// The y coordinate of the cell at flat index `i`.
pub open spec fn y_of(i: int) -> int {
    WORLD_Y_UPPER_BOUND - i / (WORLD_WIDTH as int)
}

/// A valid coordinate maps to a valid index.
pub proof fn lemma_idx_of_bounds(x: int, y: int)
    requires
        in_bounds(x, y),
    ensures
        0 <= idx_of(x, y) < GRID_LEN,
{
}

/// One direction of the bijection: mapping `(x, y)` to its index and back
/// recovers the same coordinate.
pub proof fn lemma_coord_of_idx(x: int, y: int)
    requires
        in_bounds(x, y),
    ensures
        0 <= idx_of(x, y) < GRID_LEN,
        x_of(idx_of(x, y)) == x,
        y_of(idx_of(x, y)) == y,
{
    lemma_fundamental_div_mod_converse(
        idx_of(x, y),
        WORLD_WIDTH as int,
        WORLD_Y_UPPER_BOUND - y,
        WORLD_X_UPPER_BOUND - x,
    );
}

/// The other direction of the bijection: mapping an index to its coordinate
/// and back recovers the same index.
pub proof fn lemma_idx_of_coord(i: int)
    requires
        0 <= i < GRID_LEN,
    ensures
        in_bounds(x_of(i), y_of(i)),
        idx_of(x_of(i), y_of(i)) == i,
{
    lemma_fundamental_div_mod(i, WORLD_WIDTH as int);
}

/// Two distinct valid coordinates never share an index.
pub proof fn lemma_idx_of_injective(x1: int, y1: int, x2: int, y2: int)
    requires
        in_bounds(x1, y1),
        in_bounds(x2, y2),
        (x1, y1) != (x2, y2),
    ensures
        idx_of(x1, y1) != idx_of(x2, y2),
{
    lemma_coord_of_idx(x1, y1);
    lemma_coord_of_idx(x2, y2);
}

/// Maps a valid grid coordinate to its flat cell index.
///
/// Coordinates outside the grid are a contract violation: the caller must
/// bounds-check first, and no clamping is performed here.
pub fn point_to_index(x: u32, y: u32) -> (index: usize)
    requires
        in_bounds(x as int, y as int),
    ensures
        index as int == idx_of(x as int, y as int),
        index < GRID_LEN,
{
    proof {
        lemma_idx_of_bounds(x as int, y as int);
    }
    let h: u32 = WORLD_Y_UPPER_BOUND - y;
    let w: u32 = WORLD_X_UPPER_BOUND - x;
    ((h * WORLD_WIDTH) + w) as usize
}

/// Maps a flat cell index back to the grid coordinate it stands for.
pub fn index_to_point(index: usize) -> (r: (u32, u32))
    requires
        index < GRID_LEN,
    ensures
        r.0 as int == x_of(index as int),
        r.1 as int == y_of(index as int),
        in_bounds(r.0 as int, r.1 as int),
        idx_of(r.0 as int, r.1 as int) == index as int,
{
    proof {
        lemma_idx_of_coord(index as int);
    }
    let w: u32 = (index as u32) % WORLD_WIDTH;
    let h: u32 = (index as u32) / WORLD_WIDTH;
    (WORLD_X_UPPER_BOUND - w, WORLD_Y_UPPER_BOUND - h)
}

/// The `k`-th neighbor offset of `(x, y)`, in the fixed reaction tie-break
/// order: E, W, S, N, SE, SW, NE, NW (`y` grows downward, so S is `y + 1`).
pub open spec fn nb(x: int, y: int, k: int) -> (int, int) {
    if k == 0 {
        (x + 1, y)
    } else if k == 1 {
        (x - 1, y)
    } else if k == 2 {
        (x, y + 1)
    } else if k == 3 {
        (x, y - 1)
    } else if k == 4 {
        (x + 1, y + 1)
    } else if k == 5 {
        (x - 1, y + 1)
    } else if k == 6 {
        (x + 1, y - 1)
    } else {
        (x - 1, y - 1)
    }
}

/// Distinct neighbor slots of one cell name distinct coordinates, and no
/// slot names the cell itself.
pub proof fn lemma_nb_distinct(x: int, y: int, k1: int, k2: int)
    requires
        0 <= k1 < 8,
        0 <= k2 < 8,
    ensures
        k1 != k2 ==> nb(x, y, k1) != nb(x, y, k2),
        nb(x, y, k1) != (x, y),
{
}

/// The `k`-th neighbor of `(x, y)` as a concrete coordinate, or `None` when
/// that neighbor would lie outside the grid. Underflow at `x == 0` or
/// `y == 0` is avoided by checking before subtracting.
pub fn neighbor_at(x: u32, y: u32, k: usize) -> (r: Option<(u32, u32)>)
    requires
        in_bounds(x as int, y as int),
        k < 8,
    ensures
        match r {
            Some(c) => in_bounds(nb(x as int, y as int, k as int).0, nb(x as int, y as int, k as int).1)
                && (c.0 as int, c.1 as int) == nb(x as int, y as int, k as int)
                && in_bounds(c.0 as int, c.1 as int),
            None => !in_bounds(nb(x as int, y as int, k as int).0, nb(x as int, y as int, k as int).1),
        },
{
    let east_ok: bool = x < WORLD_X_UPPER_BOUND;
    let west_ok: bool = x > 0;
    let south_ok: bool = y < WORLD_Y_UPPER_BOUND;
    let north_ok: bool = y > 0;
    match k {
        0 => if east_ok { Some((x + 1, y)) } else { None },
        1 => if west_ok { Some((x - 1, y)) } else { None },
        2 => if south_ok { Some((x, y + 1)) } else { None },
        3 => if north_ok { Some((x, y - 1)) } else { None },
        4 => if east_ok && south_ok { Some((x + 1, y + 1)) } else { None },
        5 => if west_ok && south_ok { Some((x - 1, y + 1)) } else { None },
        6 => if east_ok && north_ok { Some((x + 1, y - 1)) } else { None },
        _ => if west_ok && north_ok { Some((x - 1, y - 1)) } else { None },
    }
}

/// The in-bounds neighbors of `(x, y)` from slot `k` on, in slot order.
pub open spec fn nb_list_from(x: int, y: int, k: int) -> Seq<(int, int)>
    decreases 8 - k,
{
    if !(0 <= k < 8) {
        Seq::empty()
    } else {
        let c = nb(x, y, k);
        let head: Seq<(int, int)> = if in_bounds(c.0, c.1) {
            seq![c]
        } else {
            Seq::empty()
        };
        head + nb_list_from(x, y, k + 1)
    }
}

/// Every coordinate in the neighbor list is in bounds.
pub proof fn lemma_nb_list_in_bounds(x: int, y: int, k: int)
    ensures
        forall|m: int|
            0 <= m < nb_list_from(x, y, k).len() ==> in_bounds(
                #[trigger] nb_list_from(x, y, k)[m].0,
                nb_list_from(x, y, k)[m].1,
            ),
    decreases 8 - k,
{
    if 0 <= k < 8 {
        lemma_nb_list_in_bounds(x, y, k + 1);
        let c = nb(x, y, k);
        let rest = nb_list_from(x, y, k + 1);
        assert forall|m: int| 0 <= m < nb_list_from(x, y, k).len() implies in_bounds(
            #[trigger] nb_list_from(x, y, k)[m].0,
            nb_list_from(x, y, k)[m].1,
        ) by {
            if in_bounds(c.0, c.1) {
                if m > 0 {
                    assert(nb_list_from(x, y, k)[m] == rest[m - 1]);
                }
            } else {
                assert(nb_list_from(x, y, k)[m] == rest[m]);
            }
        }
    }
}

/// Enumerates the in-bounds 8-connected neighbors of `(x, y)`, in the fixed
/// order E, W, S, N, SE, SW, NE, NW, recomputed fresh per call.
pub fn gen_adjacent_cell_list(x: u32, y: u32) -> (r: Vec<(u32, u32)>)
    requires
        in_bounds(x as int, y as int),
    ensures
        r@.map_values(|c: (u32, u32)| (c.0 as int, c.1 as int)) == nb_list_from(
            x as int,
            y as int,
            0,
        ),
        forall|m: int|
            0 <= m < r@.len() ==> in_bounds(#[trigger] r@[m].0 as int, r@[m].1 as int),
{
    let mut v: Vec<(u32, u32)> = Vec::new();
    let mut k: usize = 0;
    while k < 8
        invariant
            in_bounds(x as int, y as int),
            k <= 8,
            v@.map_values(|c: (u32, u32)| (c.0 as int, c.1 as int)) + nb_list_from(
                x as int,
                y as int,
                k as int,
            ) == nb_list_from(x as int, y as int, 0),
            forall|m: int|
                0 <= m < v@.len() ==> in_bounds(#[trigger] v@[m].0 as int, v@[m].1 as int),
        decreases 8 - k,
    {
        let ghost prev = v@;
        match neighbor_at(x, y, k) {
            Some(c) => {
                v.push(c);
                proof {
                    let f = |c: (u32, u32)| (c.0 as int, c.1 as int);
                    assert(v@.map_values(f) =~= prev.map_values(f).push(
                        (c.0 as int, c.1 as int),
                    ));
                    assert(prev.map_values(f).push((c.0 as int, c.1 as int))
                        + nb_list_from(x as int, y as int, k as int + 1) =~= prev.map_values(f)
                        + nb_list_from(x as int, y as int, k as int));
                }
            },
            None => {
                proof {
                    assert(nb_list_from(x as int, y as int, k as int) =~= nb_list_from(
                        x as int,
                        y as int,
                        k as int + 1,
                    ));
                }
            },
        }
        k = k + 1;
    }
    proof {
        assert(v@.map_values(|c: (u32, u32)| (c.0 as int, c.1 as int)) =~= nb_list_from(
            x as int,
            y as int,
            0,
        ));
    }
    v
}

} // verus!
