//! The corn maze: stalks spawned on a unit grid over each maze plane's
//! box, the collidable each unharvested stalk contributes, and the
//! shrink state a harvested stalk hands to the renderer.

use vstd::prelude::*;
use crate::vec3::{V3, v3_fits};
use crate::collision::{WorldAabb, Collidable, aabb_wf};
use crate::fx::{tdiv, div_trunc, abs_i, SCALE};
use crate::rng::random_sway_scalar;

verus! {

/// Spacing of the corn grid: one world unit.
pub const MAZE_THICKNESS: i64 = SCALE;

/// Half-extent of one stalk's collidable box, milli-units.
pub const CORN_THICKNESS: i64 = 800;

/// Tag on a plane of the level whose box seeds a corn grid.
pub struct MazeMarker {
    pub spawned: bool,
    pub aabb: WorldAabb,
}

/// One maze cell's corn. Once harvested it never becomes unharvested
/// again, and its collidable is dropped from the registry.
pub struct CornStalk {
    pub is_harvested: bool,
    /// The stalk's world translation.
    pub position: V3,
    /// Per-stalk sway timing scalar, milli-units.
    pub random: i64,
}

/// Shrink animation state handed to the renderer when a stalk is cut.
pub struct ShrinkCorn {
    /// Milliseconds of shrinking left.
    pub shrink_time: i64,
    /// The blade's driving direction when it cut the stalk.
    pub direction: V3,
}

impl ShrinkCorn {
    pub fn new(direction: V3) -> (r: ShrinkCorn)
        ensures
            r.shrink_time == 2000,
            r.direction == direction,
    {
        ShrinkCorn { shrink_time: 2000, direction }
    }
}

/// Run one tick of a cut stalk's shrink countdown, flooring the timer
/// at zero so it never runs away negative; reports when the stalk has
/// fully shrunk and should stop animating (the renderer owns the scale
/// itself).
pub fn shrink_corn(shrink: &mut ShrinkCorn, dt: i64) -> (done: bool)
    requires
        -1_000_000_000 <= old(shrink).shrink_time <= 1_000_000_000,
        0 <= dt <= crate::fx::DT_LIMIT,
    ensures
        final(shrink).shrink_time == crate::fx::max_i(old(shrink).shrink_time - dt, 0),
        final(shrink).direction == old(shrink).direction,
        done == (final(shrink).shrink_time == 0),
{
    let t = shrink.shrink_time - dt;
    if t <= 0 {
        shrink.shrink_time = 0;
        true
    } else {
        shrink.shrink_time = t;
        false
    }
}

/// Where the stalk of a given grid cell stands: cell centers at half
/// spacing past the plane's minimum corner.
pub open spec fn corn_position(aabb: WorldAabb, row: int, col: int) -> V3 {
    V3 {
        x: (aabb.min.x + row * MAZE_THICKNESS + 500) as i64,
        y: 0,
        z: (aabb.min.z + col * MAZE_THICKNESS + 500) as i64,
    }
}

/// The collidable box an unharvested stalk contributes.
pub fn corn_collidable(stalk: &CornStalk) -> (r: Collidable)
    requires
        v3_fits(stalk.position),
        abs_i(stalk.position.x as int) <= crate::fx::FX_LIMIT - CORN_THICKNESS,
        abs_i(stalk.position.z as int) <= crate::fx::FX_LIMIT - CORN_THICKNESS,
    ensures
        r.aabb.min.x == stalk.position.x - CORN_THICKNESS,
        r.aabb.min.y == 0,
        r.aabb.min.z == stalk.position.z - CORN_THICKNESS,
        r.aabb.max.x == stalk.position.x + CORN_THICKNESS,
        r.aabb.max.y == 0,
        r.aabb.max.z == stalk.position.z + CORN_THICKNESS,
        aabb_wf(r.aabb),
{
    Collidable {
        aabb: WorldAabb {
            min: V3 {
                x: stalk.position.x - CORN_THICKNESS,
                y: 0,
                z: stalk.position.z - CORN_THICKNESS,
            },
            max: V3 {
                x: stalk.position.x + CORN_THICKNESS,
                y: 0,
                z: stalk.position.z + CORN_THICKNESS,
            },
        },
    }
}

/// Spawn the corn grid for one maze plane: one stalk per unit cell of
/// the plane's box, row by row, each unharvested and carrying a fresh
/// sway scalar.
pub fn spawn_corn(plane: &MazeMarker) -> (r: Vec<CornStalk>)
    requires
        aabb_wf(plane.aabb),
        plane.aabb.max.x - plane.aabb.min.x <= 1_000_000,
        plane.aabb.max.z - plane.aabb.min.z <= 1_000_000,
    ensures
        ({
            let rows = tdiv(plane.aabb.max.x - plane.aabb.min.x, MAZE_THICKNESS as int);
            let cols = tdiv(plane.aabb.max.z - plane.aabb.min.z, MAZE_THICKNESS as int);
            r@.len() == rows * cols && (forall|row: int, col: int|
                0 <= row < rows && 0 <= col < cols ==> {
                    let s = #[trigger] r@[row * cols + col];
                    s.position == corn_position(plane.aabb, row, col) && s.is_harvested == false
                        && 200 <= s.random < 500
                })
        }),
{
    let rows_i: i64 = div_trunc(plane.aabb.max.x - plane.aabb.min.x, MAZE_THICKNESS);
    let cols_i: i64 = div_trunc(plane.aabb.max.z - plane.aabb.min.z, MAZE_THICKNESS);
    let rows: usize = rows_i as usize;
    let cols: usize = cols_i as usize;
    proof {
        crate::fx::lemma_tdiv_bounds(plane.aabb.max.x - plane.aabb.min.x, MAZE_THICKNESS as int);
        crate::fx::lemma_tdiv_bounds(plane.aabb.max.z - plane.aabb.min.z, MAZE_THICKNESS as int);
    }
    let ghost rows_g: int = rows as int;
    let ghost cols_g: int = cols as int;
    let mut r: Vec<CornStalk> = Vec::new();
    let mut row: usize = 0;
    while row < rows
        invariant
            aabb_wf(plane.aabb),
            rows == rows_g,
            cols == cols_g,
            rows <= 1_000_000,
            cols <= 1_000_000,
            row <= rows,
            r@.len() == row * cols_g,
            forall|rr: int, cc: int|
                0 <= rr < row && 0 <= cc < cols_g ==> {
                    let s = #[trigger] r@[rr * cols_g + cc];
                    s.position == corn_position(plane.aabb, rr, cc) && s.is_harvested == false
                        && 200 <= s.random < 500
                },
        decreases rows - row,
    {
        let mut col: usize = 0;
        while col < cols
            invariant
                aabb_wf(plane.aabb),
                rows == rows_g,
                cols == cols_g,
                rows <= 1_000_000,
                cols <= 1_000_000,
                row < rows,
                col <= cols,
                r@.len() == row * cols_g + col,
                forall|rr: int, cc: int|
                    0 <= rr < row && 0 <= cc < cols_g ==> {
                        let s = #[trigger] r@[rr * cols_g + cc];
                        s.position == corn_position(plane.aabb, rr, cc) && s.is_harvested == false
                            && 200 <= s.random < 500
                    },
                forall|cc: int|
                    0 <= cc < col ==> {
                        let s = #[trigger] r@[row * cols_g + cc];
                        s.position == corn_position(plane.aabb, row as int, cc) && s.is_harvested
                            == false && 200 <= s.random < 500
                    },
            decreases cols - col,
        {
            proof {
                assert(row * cols_g + col < rows_g * cols_g && (row as int) * cols_g >= 0)
                    by (nonlinear_arith)
                    requires
                        0 <= row < rows_g,
                        0 <= col < cols_g,
                ;
            }
            let x: i64 = plane.aabb.min.x + (row as i64) * MAZE_THICKNESS + 500;
            let z: i64 = plane.aabb.min.z + (col as i64) * MAZE_THICKNESS + 500;
            let stalk = CornStalk {
                is_harvested: false,
                position: V3 { x, y: 0, z },
                random: random_sway_scalar(),
            };
            r.push(stalk);
            proof {
                assert(forall|rr: int, cc: int|
                    0 <= rr < row && 0 <= cc < cols_g ==> 0 <= #[trigger] (rr * cols_g + cc) < row
                        * cols_g + col) by (nonlinear_arith)
                    requires
                        cols_g >= 1,
                        0 <= col,
                        row >= 0,
                ;
            }
            col = col + 1;
        }
        proof {
            assert(row * cols_g + cols_g == (row + 1) * cols_g) by (nonlinear_arith);
        }
        row = row + 1;
    }
    proof {
        assert(r@.len() == rows_g * cols_g);
    }
    r
}

/// Whether any stalk is still standing.
pub open spec fn has_unharvested(corn: Seq<CornStalk>) -> bool {
    exists|i: int| 0 <= i < corn.len() && !corn[i].is_harvested
}

} // verus!
