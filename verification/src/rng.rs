//! Random sampling for agent decisions: landing targets, spawn points
//! and per-instance timing scalars. The one outside call is wrapped in a
//! trusted item; everything that consumes the samples is verified for
//! every value the range admits, and the rejection sampling for a free
//! spot is capped with a safe fallback instead of looping forever.

use vstd::prelude::*;
use crate::vec3::{V3, v3_fits};
use crate::collision::{
    Collidable, Collidables, DynamicCollidable, in_collidable, LEFT_GOAL, RIGHT_GOAL, BOTTOM_END,
    TOP_END,
};

verus! {

/// The rectangle targets and spawn points are sampled from: the goal
/// span pulled in by a quarter on Z, the field pulled in by a fiftieth
/// on X.
pub const SPAWN_MIN_X: i64 = BOTTOM_END + 798;

pub const SPAWN_MAX_X: i64 = TOP_END - 798;

pub const SPAWN_MIN_Z: i64 = LEFT_GOAL + 19_000;

pub const SPAWN_MAX_Z: i64 = RIGHT_GOAL - 19_000;

/// How often the free-spot sampling retries before falling back to a
/// deterministic scan.
pub const SPAWN_TRIES: usize = 32;

/// Candidates per axis of the fallback scan's unit grid over the spawn
/// rectangle.
pub const GRID_POINTS: usize = 39;

/// One candidate of the fallback scan's grid.
pub open spec fn grid_point(i: int, j: int) -> V3 {
    V3 { x: (SPAWN_MIN_X + i * 1000) as i64, y: 0i64, z: (SPAWN_MIN_Z + j * 1000) as i64 }
}

/// Whether any grid candidate inside the spawn rectangle is free of
/// every collidable.
pub open spec fn free_spot_exists(cs: Seq<Collidable>, ds: Seq<DynamicCollidable>) -> bool {
    exists|i: int, j: int|
        0 <= i < GRID_POINTS && 0 <= j < GRID_POINTS && !in_collidable(cs, ds, grid_point(i, j))
}

/// Relies on rand's `Rng::gen_range` over a half-open `i64` range: the
/// sample lies inside the range; the call panics only on an empty
/// range, which the precondition rules out.
#[verifier::external_body]
fn random_in_range(min: i64, max: i64) -> (r: i64)
    requires
        min < max,
    ensures
        min <= r < max,
{
    rand::Rng::gen_range(&mut rand::thread_rng(), min..max)
}

/// A random index below `len`.
pub fn random_below(len: usize) -> (r: usize)
    requires
        1 <= len <= 0x7fff_ffff_ffff_ffff,
    ensures
        r < len,
{
    let r = random_in_range(0, len as i64);
    r as usize
}

/// A random per-instance scalar in the half-unit band below one, in
/// milli-units; enemies and the player use it to desynchronize timing.
pub fn random_unit_scalar() -> (r: i64)
    ensures
        500 <= r < 1000,
{
    random_in_range(500, 1000)
}

/// A random timing scalar for corn sway, in milli-units.
pub fn random_sway_scalar() -> (r: i64)
    ensures
        200 <= r < 500,
{
    random_in_range(200, 500)
}

/// Sample a point in the spawn rectangle that no collidable covers,
/// retrying a bounded number of times; if every sample was covered,
/// scan a unit grid over the rectangle for a free point rather than
/// loop forever. Whenever some grid candidate is free the result is
/// free; only on a fully covered grid does it fall back to the field's
/// center.
#[verifier::loop_isolation(false)]
pub fn find_free_spot(cs: &Collidables) -> (r: V3)
    requires
        cs.wf(),
    ensures
        SPAWN_MIN_X <= r.x <= SPAWN_MAX_X,
        r.y == 0,
        SPAWN_MIN_Z <= r.z <= SPAWN_MAX_Z,
        v3_fits(r),
        free_spot_exists(cs.statics@, cs.dynamics@) ==> !in_collidable(
            cs.statics@,
            cs.dynamics@,
            r,
        ),
{
    let mut tries: usize = 0;
    while tries < SPAWN_TRIES
        invariant
            cs.wf(),
        decreases SPAWN_TRIES - tries,
    {
        let x = random_in_range(SPAWN_MIN_X, SPAWN_MAX_X);
        let z = random_in_range(SPAWN_MIN_Z, SPAWN_MAX_Z);
        let p = V3 { x, y: 0, z };
        if !cs.is_in_collidable(&p) {
            return p;
        }
        tries = tries + 1;
    }
    let mut i: usize = 0;
    while i < GRID_POINTS
        invariant
            i <= GRID_POINTS,
            forall|a: int, b: int|
                0 <= a < i && 0 <= b < GRID_POINTS ==> in_collidable(
                    cs.statics@,
                    cs.dynamics@,
                    #[trigger] grid_point(a, b),
                ),
        decreases GRID_POINTS - i,
    {
        let mut j: usize = 0;
        while j < GRID_POINTS
            invariant
                i < GRID_POINTS,
                j <= GRID_POINTS,
                forall|a: int, b: int|
                    0 <= a < i && 0 <= b < GRID_POINTS ==> in_collidable(
                        cs.statics@,
                        cs.dynamics@,
                        #[trigger] grid_point(a, b),
                    ),
                forall|b: int|
                    0 <= b < j ==> in_collidable(
                        cs.statics@,
                        cs.dynamics@,
                        #[trigger] grid_point(i as int, b),
                    ),
            decreases GRID_POINTS - j,
        {
            let p = V3 {
                x: SPAWN_MIN_X + (i as i64) * 1000,
                y: 0,
                z: SPAWN_MIN_Z + (j as i64) * 1000,
            };
            proof {
                assert(p == grid_point(i as int, j as int));
            }
            if !cs.is_in_collidable(&p) {
                return p;
            }
            j = j + 1;
        }
        i = i + 1;
    }
    proof {
        assert(!free_spot_exists(cs.statics@, cs.dynamics@));
    }
    V3 { x: 0, y: 0, z: 0 }
}

} // verus!
