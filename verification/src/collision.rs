//! The collidable registry and the collision resolver: world boundary
//! planes, static axis-aligned boxes, dynamic boxes that follow an
//! actor's transform, the point-in-collidable query, and the `fit_in`
//! move resolution with its bounce and wall-slide responses. All box
//! tests are two-dimensional over X and Z; Y is ignored.

use vstd::prelude::*;
use crate::fx::{
    tdiv, abs_i, max_i, sqrt_ceil, is_sqrt_ceil, lemma_sqrt_ceil_props, lemma_tdiv_bounds,
    lemma_tdiv_abs, lemma_tdiv_mono_nonneg, lemma_tdiv_multiple, div_trunc, ceil_isqrt, max64,
    abs64, DT_LIMIT, FX_LIMIT,
};
use crate::vec3::{V3, v3_fits, v3_near};

verus! {

/// World edges on the Z axis (left/right) and X axis (bottom/top), in
/// milli-units.
pub const LEFT_END: i64 = -47_500;

pub const RIGHT_END: i64 = 47_000;

pub const BOTTOM_END: i64 = -19_471;

pub const TOP_END: i64 = 20_471;

/// Goal lines on the Z axis, in milli-units.
pub const LEFT_GOAL: i64 = -38_500;

pub const RIGHT_GOAL: i64 = 37_500;

/// An axis-aligned box in world space.
#[derive(Clone, Copy, PartialEq, Eq, Structural, Debug)]
pub struct WorldAabb {
    pub min: V3,
    pub max: V3,
}

/// A static obstacle with a fixed world-space box.
#[derive(Clone, Copy, PartialEq, Eq, Structural, Debug)]
pub struct Collidable {
    pub aabb: WorldAabb,
}

/// A quarter-turn yaw about the Y axis; the only rotations the dynamic
/// obstacles (the combine's body and blade) take.
#[derive(Clone, Copy, PartialEq, Eq, Structural, Debug)]
pub enum QuarterTurn {
    Turn0,
    Turn90,
    Turn180,
    Turn270,
}

/// An obstacle whose box is recomputed per query from its live
/// transform: a mesh-local box, the actor's current translation and its
/// quarter-turn yaw.
#[derive(Clone, Copy, PartialEq, Eq, Structural, Debug)]
pub struct DynamicCollidable {
    pub local: WorldAabb,
    pub position: V3,
    pub turn: QuarterTurn,
}

/// The queryable registry a tick's collision tests run against.
pub struct Collidables {
    pub statics: Vec<Collidable>,
    pub dynamics: Vec<DynamicCollidable>,
}

pub open spec fn aabb_wf(a: WorldAabb) -> bool {
    v3_fits(a.min) && v3_fits(a.max) && a.min.x <= a.max.x && a.min.z <= a.max.z
}

/// Rotate a vector by the inverse of the given quarter turn (carrying a
/// world offset into an obstacle's local frame).
pub open spec fn unrotated(turn: QuarterTurn, t: V3) -> V3 {
    match turn {
        QuarterTurn::Turn0 => t,
        QuarterTurn::Turn90 => V3 { x: (-t.z) as i64, y: t.y, z: t.x },
        QuarterTurn::Turn180 => V3 { x: (-t.x) as i64, y: t.y, z: (-t.z) as i64 },
        QuarterTurn::Turn270 => V3 { x: t.z, y: t.y, z: (-t.x) as i64 },
    }
}

/// A world point carried into a dynamic obstacle's local frame.
pub open spec fn local_point(d: DynamicCollidable, p: V3) -> V3 {
    unrotated(
        d.turn,
        V3 {
            x: (p.x - d.position.x) as i64,
            y: (p.y - d.position.y) as i64,
            z: (p.z - d.position.z) as i64,
        },
    )
}

/// Inclusive 2D box membership over X and Z.
pub open spec fn in_aabb_xz(p: V3, a: WorldAabb) -> bool {
    a.min.x <= p.x <= a.max.x && a.min.z <= p.z <= a.max.z
}

/// Strict 2D box membership over X and Z (the blade's contact test).
pub open spec fn strictly_in_aabb_xz(p: V3, a: WorldAabb) -> bool {
    a.min.x < p.x < a.max.x && a.min.z < p.z < a.max.z
}

/// Outside the world's four boundary planes.
pub open spec fn out_of_bounds(p: V3) -> bool {
    p.z <= LEFT_END || p.z >= RIGHT_END || p.x <= BOTTOM_END || p.x >= TOP_END
}

pub open spec fn in_dynamic(d: DynamicCollidable, p: V3) -> bool {
    in_aabb_xz(local_point(d, p), d.local)
}

pub open spec fn in_any_static(cs: Seq<Collidable>, p: V3) -> bool {
    exists|i: int| 0 <= i < cs.len() && in_aabb_xz(p, cs[i].aabb)
}

pub open spec fn in_any_dynamic(ds: Seq<DynamicCollidable>, p: V3) -> bool {
    exists|i: int| 0 <= i < ds.len() && in_dynamic(ds[i], p)
}

/// Strictly inside some static box's interior (boundary contact is not
/// inside).
pub open spec fn strictly_in_any_static(cs: Seq<Collidable>, p: V3) -> bool {
    exists|i: int| 0 <= i < cs.len() && strictly_in_aabb_xz(p, cs[i].aabb)
}

/// What the point-in-collidable query answers: outside the world's
/// edges, or inside a static box, or inside a dynamic obstacle's box.
pub open spec fn in_collidable(cs: Seq<Collidable>, ds: Seq<DynamicCollidable>, p: V3) -> bool {
    out_of_bounds(p) || in_any_static(cs, p) || in_any_dynamic(ds, p)
}

impl WorldAabb {
    pub fn new(min: V3, max: V3) -> (r: WorldAabb)
        ensures
            r == (WorldAabb { min, max }),
    {
        WorldAabb { min, max }
    }

    /// Inclusive 2D membership test.
    pub fn contains_xz(&self, p: &V3) -> (r: bool)
        ensures
            r == in_aabb_xz(*p, *self),
    {
        p.x <= self.max.x && p.x >= self.min.x && p.z <= self.max.z && p.z >= self.min.z
    }

    /// Strict 2D membership test.
    pub fn contains_xz_strict(&self, p: &V3) -> (r: bool)
        ensures
            r == strictly_in_aabb_xz(*p, *self),
    {
        p.x < self.max.x && p.x > self.min.x && p.z < self.max.z && p.z > self.min.z
    }
}

impl DynamicCollidable {
    pub open spec fn wf(self) -> bool {
        aabb_wf(self.local) && v3_fits(self.position)
    }

    /// Carry a world point into this obstacle's local frame.
    pub fn to_local(&self, p: &V3) -> (r: V3)
        requires
            self.wf(),
            v3_near(*p),
        ensures
            r == local_point(*self, *p),
    {
        let t = V3 {
            x: p.x - self.position.x,
            y: p.y - self.position.y,
            z: p.z - self.position.z,
        };
        match self.turn {
            QuarterTurn::Turn0 => t,
            QuarterTurn::Turn90 => V3 { x: -t.z, y: t.y, z: t.x },
            QuarterTurn::Turn180 => V3 { x: -t.x, y: t.y, z: -t.z },
            QuarterTurn::Turn270 => V3 { x: t.z, y: t.y, z: -t.x },
        }
    }

    /// Inclusive membership of a world point, after the local carry.
    pub fn contains(&self, p: &V3) -> (r: bool)
        requires
            self.wf(),
            v3_near(*p),
        ensures
            r == in_dynamic(*self, *p),
    {
        let lp = self.to_local(p);
        self.local.contains_xz(&lp)
    }

    /// Strict membership of a world point, after the local carry.
    pub fn contains_strict(&self, p: &V3) -> (r: bool)
        requires
            self.wf(),
            v3_near(*p),
        ensures
            r == strictly_in_aabb_xz(local_point(*self, *p), self.local),
    {
        let lp = self.to_local(p);
        self.local.contains_xz_strict(&lp)
    }
}

impl Collidables {
    pub open spec fn wf(self) -> bool {
        (forall|i: int| 0 <= i < self.statics@.len() ==> aabb_wf(#[trigger] self.statics@[i].aabb))
            && (forall|i: int| 0 <= i < self.dynamics@.len() ==> (#[trigger] self.dynamics@[i]).wf())
    }

    pub fn new() -> (r: Collidables)
        ensures
            r.wf(),
            r.statics@.len() == 0,
            r.dynamics@.len() == 0,
    {
        Collidables { statics: Vec::new(), dynamics: Vec::new() }
    }

    /// Whether a position is out of play: beyond a world edge, inside a
    /// static box, or inside a dynamic obstacle.
    pub fn is_in_collidable(&self, position: &V3) -> (r: bool)
        requires
            self.wf(),
            v3_near(*position),
        ensures
            r == in_collidable(self.statics@, self.dynamics@, *position),
    {
        if position.z <= LEFT_END || position.z >= RIGHT_END || position.x <= BOTTOM_END
            || position.x >= TOP_END {
            return true;
        }
        let mut i: usize = 0;
        while i < self.statics.len()
            invariant
                self.wf(),
                v3_near(*position),
                i <= self.statics@.len(),
                forall|j: int| 0 <= j < i ==> !in_aabb_xz(*position, #[trigger] self.statics@[j].aabb),
            decreases self.statics@.len() - i,
        {
            if self.statics[i].aabb.contains_xz(position) {
                return true;
            }
            i = i + 1;
        }
        let mut k: usize = 0;
        while k < self.dynamics.len()
            invariant
                self.wf(),
                v3_near(*position),
                k <= self.dynamics@.len(),
                forall|j: int| 0 <= j < k ==> !in_dynamic(#[trigger] self.dynamics@[j], *position),
                forall|j: int|
                    0 <= j < self.statics@.len() ==> !in_aabb_xz(
                        *position,
                        #[trigger] self.statics@[j].aabb,
                    ),
            decreases self.dynamics@.len() - k,
        {
            if self.dynamics[k].contains(position) {
                return true;
            }
            k = k + 1;
        }
        false
    }
}

/// The sign a slide correction boosts by: positive for a nonnegative
/// component (zero included), negative otherwise.
pub open spec fn sign1(v: int) -> int {
    if v >= 0 {
        1
    } else {
        -1
    }
}

/// One axis of the slide pushback: the correction the resolver subtracts
/// from the current position along the crossed face's normal, built from
/// the normalized motion component `dm` (milli), the crossed-axis
/// velocity `vc`, and the tick length.
pub open spec fn push_shift(vc: int, dm: int, dt: int) -> int {
    tdiv(tdiv(max_i(abs_i(vc), 1000) * dm, 1000) * dt, 1000)
}

/// The slide response against one violated box: pick the crossed face
/// from the motion direction and which side the current position lies
/// on, push the position back out along that face's normal, zero the
/// crossed-axis velocity and boost the perpendicular axis by the zeroed
/// amount, signed like the perpendicular component.
pub open spec fn slide_one(a: WorldAabb, cur: V3, st: (V3, V3), dt: int) -> (V3, V3) {
    let new = st.0;
    let vel = st.1;
    let dx = new.x - cur.x;
    let dy = new.y - cur.y;
    let dz = new.z - cur.z;
    if dx == 0 && dy == 0 && dz == 0 {
        st
    } else {
        let l = sqrt_ceil(dx * dx + dy * dy + dz * dz);
        if dx < 0 && cur.x > a.max.x {
            (
                V3 { x: (cur.x - push_shift(vel.x as int, tdiv(dx * 1000, l), dt)) as i64, y: cur.y, z: cur.z },
                V3 { x: 0, y: vel.y, z: (vel.z + sign1(vel.z as int) * vel.x) as i64 },
            )
        } else if dx > 0 && cur.x < a.min.x {
            (
                V3 { x: (cur.x - push_shift(vel.x as int, tdiv(dx * 1000, l), dt)) as i64, y: cur.y, z: cur.z },
                V3 { x: 0, y: vel.y, z: (vel.z + sign1(vel.z as int) * vel.x) as i64 },
            )
        } else if dz > 0 && cur.z < a.min.z {
            (
                V3 { x: cur.x, y: cur.y, z: (cur.z - push_shift(vel.z as int, tdiv(dz * 1000, l), dt)) as i64 },
                V3 { x: (vel.x + sign1(vel.x as int) * vel.z) as i64, y: vel.y, z: 0 },
            )
        } else if dz < 0 && cur.z > a.max.z {
            (
                V3 { x: cur.x, y: cur.y, z: (cur.z - push_shift(vel.z as int, tdiv(dz * 1000, l), dt)) as i64 },
                V3 { x: (vel.x + sign1(vel.x as int) * vel.z) as i64, y: vel.y, z: 0 },
            )
        } else {
            st
        }
    }
}

/// The slide responses of every box the candidate position violated,
/// applied in registry order to the evolving position and velocity.
pub open spec fn slide_all(boxes: Seq<Collidable>, new0: V3, cur: V3, st: (V3, V3), dt: int) -> (
    V3,
    V3,
)
    decreases boxes.len(),
{
    if boxes.len() == 0 {
        st
    } else {
        let prev = slide_all(boxes.drop_last(), new0, cur, st, dt);
        if in_aabb_xz(new0, boxes.last().aabb) {
            slide_one(boxes.last().aabb, cur, prev, dt)
        } else {
            prev
        }
    }
}

/// Velocity after a boundary bounce along one axis: at least one unit
/// per second away from the crossed edge, doubled.
pub open spec fn bounce_away(v: int, positive: bool) -> int {
    if positive {
        max_i(abs_i(v), 1000) * 2
    } else {
        crate::fx::min_i(-abs_i(v), -1000) * 2
    }
}

/// What `fit_in` resolves a move to: a move past a world edge is
/// rejected unconditionally with a reflected, doubled velocity on the
/// crossed axis; a move into a dynamic obstacle is rejected with the
/// whole velocity reflected and doubled; a move into static boxes gets
/// the slide response per violated box, and a slide that would land
/// strictly inside any static box is rejected back to the current
/// position instead; a clear move passes untouched.
pub open spec fn fit_in_spec(
    cs: Seq<Collidable>,
    ds: Seq<DynamicCollidable>,
    cur: V3,
    new: V3,
    vel: V3,
    dt: int,
) -> (V3, V3) {
    if new.z <= LEFT_END {
        (cur, V3 { x: vel.x, y: vel.y, z: bounce_away(vel.z as int, true) as i64 })
    } else if new.z >= RIGHT_END {
        (cur, V3 { x: vel.x, y: vel.y, z: bounce_away(vel.z as int, false) as i64 })
    } else if new.x <= BOTTOM_END {
        (cur, V3 { x: bounce_away(vel.x as int, true) as i64, y: vel.y, z: vel.z })
    } else if new.x >= TOP_END {
        (cur, V3 { x: bounce_away(vel.x as int, false) as i64, y: vel.y, z: vel.z })
    } else if in_any_dynamic(ds, new) {
        (cur, V3 { x: (-2 * vel.x) as i64, y: (-2 * vel.y) as i64, z: (-2 * vel.z) as i64 })
    } else {
        let slid = slide_all(cs, new, cur, (new, vel), dt);
        if strictly_in_any_static(cs, slid.0) {
            (cur, slid.1)
        } else {
            slid
        }
    }
}

/// One axis of the slide pushback, computed; never larger than a
/// thousand units, and directed like the motion component.
fn push_shift_exec(vc: i64, dcomp: i64, l: i64, dt: i64) -> (r: i64)
    requires
        1 <= l <= 3_000_000_000,
        abs_i(dcomp as int) <= l,
        abs_i(vc as int) <= 300_000_000,
        0 <= dt <= DT_LIMIT,
        (abs_i(vc as int) + 1000) * dt <= 1_000_000_000_000,
    ensures
        r == push_shift(vc as int, tdiv(dcomp * 1000, l as int), dt as int),
        abs_i(r as int) <= 1_000_000_000,
        dcomp < 0 ==> r <= 0,
        dcomp >= 0 ==> r >= 0,
{
    let dirm: i64 = div_trunc(dcomp * 1000, l);
    proof {
        lemma_tdiv_abs(dcomp * 1000, l as int);
        lemma_tdiv_mono_nonneg(abs_i(dcomp * 1000), (l as int) * 1000, l as int);
        lemma_tdiv_multiple(1000, l as int);
        assert(abs_i(dirm as int) <= 1000);
        lemma_tdiv_bounds(dcomp * 1000, l as int);
    }
    let m1: i64 = max64(abs64(vc), 1000);
    proof {
        assert(abs_i(m1 * dirm) <= m1 * 1000 && (dirm <= 0 ==> m1 * dirm <= 0) && (dirm >= 0
            ==> m1 * dirm >= 0) && m1 * 1000 <= 301_000_000_000int) by (nonlinear_arith)
            requires
                1000 <= m1 <= 300_001_000,
                abs_i(dirm as int) <= 1000,
        ;
        lemma_tdiv_abs(m1 * dirm, 1000);
        lemma_tdiv_mono_nonneg(abs_i(m1 * dirm), m1 * 1000, 1000);
        lemma_tdiv_multiple(m1 as int, 1000);
        lemma_tdiv_bounds(m1 * dirm, 1000);
    }
    let u: i64 = div_trunc(m1 * dirm, 1000);
    proof {
        assert(abs_i(u as int) <= m1);
        assert(abs_i(u * dt) <= m1 * dt && (u <= 0 ==> u * dt <= 0) && (u >= 0 ==> u * dt >= 0)
            && m1 * dt <= (abs_i(vc as int) + 1000) * dt) by (nonlinear_arith)
            requires
                abs_i(u as int) <= m1,
                0 <= dt,
                1000 <= m1,
                m1 <= abs_i(vc as int) + 1000,
        ;
        lemma_tdiv_abs(u * dt, 1000);
        lemma_tdiv_mono_nonneg(abs_i(u * dt), 1_000_000_000_000, 1000);
        lemma_tdiv_multiple(1_000_000_000, 1000);
        lemma_tdiv_bounds(u * dt, 1000);
    }
    div_trunc(u * dt, 1000)
}

/// The slide response against one violated box, applied in place.
fn slide_step(a: &WorldAabb, cur: &V3, new: &mut V3, vel: &mut V3, dt: i64)
    requires
        aabb_wf(*a),
        v3_fits(*cur),
        0 <= dt <= DT_LIMIT,
        abs_i(old(new).x as int) <= 1_100_000_000,
        abs_i(old(new).y as int) <= 1_100_000_000,
        abs_i(old(new).z as int) <= 1_100_000_000,
        abs_i(old(vel).x as int) + abs_i(old(vel).z as int) <= 200_000_000,
        abs_i(old(vel).y as int) <= FX_LIMIT,
        (abs_i(old(vel).x as int) + abs_i(old(vel).z as int) + 1000) * dt <= 1_000_000_000_000,
    ensures
        *final(new) == slide_one(*a, *cur, (*old(new), *old(vel)), dt as int).0,
        *final(vel) == slide_one(*a, *cur, (*old(new), *old(vel)), dt as int).1,
        abs_i(final(new).x as int) <= 1_100_000_000,
        abs_i(final(new).y as int) <= 1_100_000_000,
        abs_i(final(new).z as int) <= 1_100_000_000,
        abs_i(final(vel).x as int) + abs_i(final(vel).z as int) <= abs_i(old(vel).x as int)
            + abs_i(old(vel).z as int),
        final(vel).y == old(vel).y,
{
    let dx: i64 = new.x - cur.x;
    let dy: i64 = new.y - cur.y;
    let dz: i64 = new.z - cur.z;
    if dx == 0 && dy == 0 && dz == 0 {
        return ;
    }
    let d = V3 { x: dx, y: dy, z: dz };
    let n2: u64 = d.len2_u64();
    let l64: u64 = ceil_isqrt(n2);
    let l: i64 = l64 as i64;
    proof {
        assert(l >= 1) by {
            if l64 == 0 {
                assert((l64 as int) * (l64 as int) == 0) by (nonlinear_arith)
                    requires
                        l64 == 0,
                ;
                assert((dx as int) * (dx as int) >= 1 || (dy as int) * (dy as int) >= 1 || (
                dz as int) * (dz as int) >= 1) by (nonlinear_arith)
                    requires
                        !(dx == 0 && dy == 0 && dz == 0),
                ;
                assert((dx as int) * (dx as int) >= 0 && (dy as int) * (dy as int) >= 0 && (
                dz as int) * (dz as int) >= 0) by (nonlinear_arith);
            }
        }
        assert(abs_i(dx as int) <= l && abs_i(dz as int) <= l) by (nonlinear_arith)
            requires
                (l as int) * (l as int) >= (dx as int) * (dx as int) + (dy as int) * (dy as int) + (
                dz as int) * (dz as int),
                l >= 1,
        ;
        assert((abs_i(vel.x as int) + 1000) * dt <= (abs_i(vel.x as int) + abs_i(vel.z as int)
            + 1000) * dt && (abs_i(vel.z as int) + 1000) * dt <= (abs_i(vel.x as int) + abs_i(
            vel.z as int,
        ) + 1000) * dt) by (nonlinear_arith)
            requires
                dt >= 0,
                abs_i(vel.x as int) >= 0,
                abs_i(vel.z as int) >= 0,
        ;
    }
    if dx < 0 && cur.x > a.max.x {
        let shift = push_shift_exec(vel.x, dx, l, dt);
        let boost: i64 = if vel.z >= 0 { vel.x } else { -vel.x };
        *new = V3 { x: cur.x - shift, y: cur.y, z: cur.z };
        *vel = V3 { x: 0, y: vel.y, z: vel.z + boost };
    } else if dx > 0 && cur.x < a.min.x {
        let shift = push_shift_exec(vel.x, dx, l, dt);
        let boost: i64 = if vel.z >= 0 { vel.x } else { -vel.x };
        *new = V3 { x: cur.x - shift, y: cur.y, z: cur.z };
        *vel = V3 { x: 0, y: vel.y, z: vel.z + boost };
    } else if dz > 0 && cur.z < a.min.z {
        let shift = push_shift_exec(vel.z, dz, l, dt);
        let boost: i64 = if vel.x >= 0 { vel.z } else { -vel.z };
        *new = V3 { x: cur.x, y: cur.y, z: cur.z - shift };
        *vel = V3 { x: vel.x + boost, y: vel.y, z: 0 };
    } else if dz < 0 && cur.z > a.max.z {
        let shift = push_shift_exec(vel.z, dz, l, dt);
        let boost: i64 = if vel.x >= 0 { vel.z } else { -vel.z };
        *new = V3 { x: cur.x, y: cur.y, z: cur.z - shift };
        *vel = V3 { x: vel.x + boost, y: vel.y, z: 0 };
    }
}

impl Collidables {
    /// The resolver's computation, proved equal to `fit_in_spec`; the
    /// public entry point layers the containment and impenetrability
    /// clauses on top.
    #[verifier::loop_isolation(false)]
    fn fit_in_inner(&self, current: &V3, new: &mut V3, velocity: &mut V3, dt: i64)
        requires
            self.wf(),
            v3_fits(*current),
            v3_near(*old(new)),
            v3_fits(*old(velocity)),
            0 <= dt <= DT_LIMIT,
            (abs_i(old(velocity).x as int) + abs_i(old(velocity).z as int) + 1000) * dt
                <= 1_000_000_000_000,
        ensures
            *final(new) == fit_in_spec(
                self.statics@,
                self.dynamics@,
                *current,
                *old(new),
                *old(velocity),
                dt as int,
            ).0,
            *final(velocity) == fit_in_spec(
                self.statics@,
                self.dynamics@,
                *current,
                *old(new),
                *old(velocity),
                dt as int,
            ).1,
            abs_i(final(velocity).x as int) <= 2 * abs_i(old(velocity).x as int) + 2 * abs_i(
                old(velocity).z as int,
            ) + 2000,
            abs_i(final(velocity).y as int) <= 2 * abs_i(old(velocity).y as int),
            abs_i(final(velocity).z as int) <= 2 * abs_i(old(velocity).x as int) + 2 * abs_i(
                old(velocity).z as int,
            ) + 2000,
    {
        let n0: V3 = *new;
        let v0: V3 = *velocity;
        if n0.z <= LEFT_END {
            let b: i64 = max64(abs64(v0.z), 1000) * 2;
            *new = *current;
            *velocity = V3 { x: v0.x, y: v0.y, z: b };
            return ;
        }
        if n0.z >= RIGHT_END {
            let b: i64 = crate::fx::min64(-abs64(v0.z), -1000) * 2;
            *new = *current;
            *velocity = V3 { x: v0.x, y: v0.y, z: b };
            return ;
        }
        if n0.x <= BOTTOM_END {
            let b: i64 = max64(abs64(v0.x), 1000) * 2;
            *new = *current;
            *velocity = V3 { x: b, y: v0.y, z: v0.z };
            return ;
        }
        if n0.x >= TOP_END {
            let b: i64 = crate::fx::min64(-abs64(v0.x), -1000) * 2;
            *new = *current;
            *velocity = V3 { x: b, y: v0.y, z: v0.z };
            return ;
        }
        let mut k: usize = 0;
        while k < self.dynamics.len()
            invariant
                self.wf(),
                n0 == *old(new),
                v0 == *old(velocity),
                *new == *old(new),
                *velocity == *old(velocity),
                v3_near(n0),
                v3_fits(v0),
                k <= self.dynamics@.len(),
                forall|j: int| 0 <= j < k ==> !in_dynamic(#[trigger] self.dynamics@[j], n0),
            decreases self.dynamics@.len() - k,
        {
            if self.dynamics[k].contains(&n0) {
                proof {
                    assert(in_dynamic(self.dynamics@[k as int], n0));
                    assert(in_any_dynamic(self.dynamics@, *old(new)));
                }
                *velocity = V3 { x: -2 * v0.x, y: -2 * v0.y, z: -2 * v0.z };
                *new = *current;
                return ;
            }
            k = k + 1;
        }
        proof {
            assert(!in_any_dynamic(self.dynamics@, n0));
        }
        let saved: V3 = n0;
        let ghost vel0: V3 = v0;
        let ghost sum0: int = abs_i(vel0.x as int) + abs_i(vel0.z as int);
        let mut i: usize = 0;
        while i < self.statics.len()
            invariant
                self.wf(),
                v3_fits(*current),
                v3_near(saved),
                0 <= dt <= DT_LIMIT,
                i <= self.statics@.len(),
                (*new, *velocity) == slide_all(
                    self.statics@.take(i as int),
                    saved,
                    *current,
                    (saved, vel0),
                    dt as int,
                ),
                abs_i(new.x as int) <= 1_100_000_000,
                abs_i(new.y as int) <= 1_100_000_000,
                abs_i(new.z as int) <= 1_100_000_000,
                abs_i(velocity.x as int) + abs_i(velocity.z as int) <= sum0,
                velocity.y == vel0.y,
                sum0 == abs_i(vel0.x as int) + abs_i(vel0.z as int),
                sum0 <= 200_000_000,
                abs_i(vel0.y as int) <= FX_LIMIT,
                (sum0 + 1000) * dt <= 1_000_000_000_000,
            decreases self.statics@.len() - i,
        {
            if self.statics[i].aabb.contains_xz(&saved) {
                proof {
                    assert((abs_i(velocity.x as int) + abs_i(velocity.z as int) + 1000) * dt <= (
                    sum0 + 1000) * dt) by (nonlinear_arith)
                        requires
                            abs_i(velocity.x as int) + abs_i(velocity.z as int) <= sum0,
                            dt >= 0,
                    ;
                }
                slide_step(&self.statics[i].aabb, current, new, velocity, dt);
            }
            proof {
                assert(self.statics@.take(i + 1 as int).drop_last() =~= self.statics@.take(
                    i as int,
                ));
                assert(self.statics@.take(i + 1 as int).last() == self.statics@[i as int]);
            }
            i = i + 1;
        }
        proof {
            assert(self.statics@.take(self.statics@.len() as int) =~= self.statics@);
        }
        let resolved: V3 = *new;
        let mut t: usize = 0;
        while t < self.statics.len()
            invariant
                t <= self.statics@.len(),
                *new == resolved,
                forall|j: int|
                    0 <= j < t ==> !strictly_in_aabb_xz(resolved, #[trigger] self.statics@[j].aabb),
            decreases self.statics@.len() - t,
        {
            if self.statics[t].aabb.contains_xz_strict(&resolved) {
                proof {
                    assert(strictly_in_aabb_xz(resolved, self.statics@[t as int].aabb));
                    assert(strictly_in_any_static(self.statics@, resolved));
                }
                *new = *current;
                return ;
            }
            t = t + 1;
        }
        proof {
            assert(!strictly_in_any_static(self.statics@, resolved));
        }
    }

    /// Resolve a proposed move: reject moves past a world edge (always,
    /// even with nothing registered) or into a dynamic obstacle, with a
    /// bounce on the velocity; slide along violated static boxes,
    /// rejecting a slide that would land inside another box; let clear
    /// moves through. The result is exactly `fit_in_spec` of the
    /// inputs; a current position clear of every static interior stays
    /// clear, and one inside the world with room for the slide pushback
    /// stays inside the world.
    pub fn fit_in(&self, current: &V3, new: &mut V3, velocity: &mut V3, dt: i64)
        requires
            self.wf(),
            v3_fits(*current),
            v3_near(*old(new)),
            v3_fits(*old(velocity)),
            0 <= dt <= DT_LIMIT,
            (abs_i(old(velocity).x as int) + abs_i(old(velocity).z as int) + 1000) * dt
                <= 1_000_000_000_000,
        ensures
            *final(new) == fit_in_spec(
                self.statics@,
                self.dynamics@,
                *current,
                *old(new),
                *old(velocity),
                dt as int,
            ).0,
            *final(velocity) == fit_in_spec(
                self.statics@,
                self.dynamics@,
                *current,
                *old(new),
                *old(velocity),
                dt as int,
            ).1,
            abs_i(final(velocity).x as int) <= 2 * abs_i(old(velocity).x as int) + 2 * abs_i(
                old(velocity).z as int,
            ) + 2000,
            abs_i(final(velocity).y as int) <= 2 * abs_i(old(velocity).y as int),
            abs_i(final(velocity).z as int) <= 2 * abs_i(old(velocity).x as int) + 2 * abs_i(
                old(velocity).z as int,
            ) + 2000,
            !strictly_in_any_static(self.statics@, *current) ==> !strictly_in_any_static(
                self.statics@,
                *final(new),
            ),
            ({
                let pb = push_bound(
                    abs_i(old(velocity).x as int) + abs_i(old(velocity).z as int),
                    dt as int,
                );
                BOTTOM_END + pb <= current.x <= TOP_END - pb && LEFT_END + pb <= current.z
                    <= RIGHT_END - pb
            }) ==> in_world(*final(new)),
    {
        self.fit_in_inner(current, new, velocity, dt);
        proof {
            let s0 = abs_i(old(velocity).x as int) + abs_i(old(velocity).z as int);
            let pb = push_bound(s0, dt as int);
            if !strictly_in_any_static(self.statics@, *current) {
                lemma_static_impenetrability(
                    self.statics@,
                    self.dynamics@,
                    *current,
                    *old(new),
                    *old(velocity),
                    dt as int,
                );
            }
            if BOTTOM_END + pb <= current.x <= TOP_END - pb && LEFT_END + pb <= current.z
                <= RIGHT_END - pb {
                lemma_boundary_containment(
                    self.statics@,
                    self.dynamics@,
                    *current,
                    *old(new),
                    *old(velocity),
                    dt as int,
                );
            }
        }
    }
}

/// Inside the world's four boundary planes (closed).
pub open spec fn in_world(p: V3) -> bool {
    BOTTOM_END <= p.x <= TOP_END && LEFT_END <= p.z <= RIGHT_END
}

/// The farthest one slide response can push the position along an axis,
/// for velocities whose X and Z magnitudes sum to at most `s0`.
pub open spec fn push_bound(s0: int, dt: int) -> int {
    tdiv(max_i(s0, 1000) * dt, 1000)
}

proof fn lemma_sqrt_len(dx: int, dy: int, dz: int)
    requires
        !(dx == 0 && dy == 0 && dz == 0),
    ensures
        ({
            let l = sqrt_ceil(dx * dx + dy * dy + dz * dz);
            l >= 1 && abs_i(dx) <= l && abs_i(dz) <= l
        }),
{
    let n2 = dx * dx + dy * dy + dz * dz;
    assert(dx * dx + dy * dy + dz * dz >= 1 && dx * dx + dy * dy + dz * dz >= dx * dx && dx * dx
        + dy * dy + dz * dz >= dz * dz) by (nonlinear_arith)
        requires
            !(dx == 0 && dy == 0 && dz == 0),
    ;
    lemma_sqrt_ceil_props(n2);
    let l = sqrt_ceil(n2);
    assert(l >= 1 && abs_i(dx) <= l && abs_i(dz) <= l) by (nonlinear_arith)
        requires
            is_sqrt_ceil(n2, l),
            n2 >= 1,
            n2 >= dx * dx,
            n2 >= dz * dz,
    ;
}

proof fn lemma_dirm(d: int, l: int)
    requires
        l >= 1,
        abs_i(d) <= l,
    ensures
        abs_i(tdiv(d * 1000, l)) <= 1000,
        d <= 0 ==> tdiv(d * 1000, l) <= 0,
        d >= 0 ==> tdiv(d * 1000, l) >= 0,
{
    lemma_tdiv_abs(d * 1000, l);
    lemma_tdiv_mono_nonneg(abs_i(d * 1000), l * 1000, l);
    lemma_tdiv_multiple(1000, l);
    lemma_tdiv_bounds(d * 1000, l);
}

proof fn lemma_push_shift_facts(vc: int, dm: int, dt: int, s0: int)
    requires
        abs_i(dm) <= 1000,
        dt >= 0,
        abs_i(vc) <= s0,
    ensures
        abs_i(push_shift(vc, dm, dt)) <= push_bound(s0, dt),
        dm <= 0 ==> push_shift(vc, dm, dt) <= 0,
        dm >= 0 ==> push_shift(vc, dm, dt) >= 0,
        push_bound(s0, dt) >= 0,
{
    let m1 = max_i(abs_i(vc), 1000);
    let m0 = max_i(s0, 1000);
    assert(abs_i(m1 * dm) <= m1 * 1000 && (dm <= 0 ==> m1 * dm <= 0) && (dm >= 0 ==> m1 * dm
        >= 0)) by (nonlinear_arith)
        requires
            m1 >= 1000,
            abs_i(dm) <= 1000,
    ;
    lemma_tdiv_abs(m1 * dm, 1000);
    lemma_tdiv_mono_nonneg(abs_i(m1 * dm), m1 * 1000, 1000);
    lemma_tdiv_multiple(m1, 1000);
    lemma_tdiv_bounds(m1 * dm, 1000);
    let u = tdiv(m1 * dm, 1000);
    assert(abs_i(u * dt) <= m0 * dt && (u <= 0 ==> u * dt <= 0) && (u >= 0 ==> u * dt >= 0) && 0
        <= m0 * dt) by (nonlinear_arith)
        requires
            abs_i(u) <= m1,
            m1 <= m0,
            dt >= 0,
            m0 >= 1000,
    ;
    lemma_tdiv_abs(u * dt, 1000);
    lemma_tdiv_mono_nonneg(abs_i(u * dt), m0 * dt, 1000);
    lemma_tdiv_bounds(u * dt, 1000);
    lemma_tdiv_bounds(m0 * dt, 1000);
}

proof fn lemma_push_bound_cap(s0: int, dt: int)
    requires
        0 <= s0 <= 200_000_000,
        0 <= dt <= DT_LIMIT as int,
    ensures
        0 <= push_bound(s0, dt) <= 201_000_000_000,
{
    let m0 = max_i(s0, 1000);
    assert(0 <= m0 * dt <= 201_000_000_000_000int) by (nonlinear_arith)
        requires
            1000 <= m0 <= 200_001_000,
            0 <= dt <= 1_000_000,
    ;
    lemma_tdiv_bounds(m0 * dt, 1000);
    lemma_tdiv_mono_nonneg(m0 * dt, 201_000_000_000_000int, 1000);
    lemma_tdiv_multiple(201_000_000_000int, 1000);
}

/// What one slide response does to the evolving state: it keeps the
/// velocity's X and Z magnitudes summing under the starting bound,
/// leaves Y velocity alone, and either leaves the position alone or
/// moves it from `cur` by at most `push_bound` along one axis.
proof fn lemma_slide_one_props(a: WorldAabb, cur: V3, st: (V3, V3), dt: int, s0: int)
    requires
        0 <= dt <= DT_LIMIT as int,
        v3_fits(cur),
        abs_i(st.1.x as int) + abs_i(st.1.z as int) <= s0,
        s0 <= 200_000_000,
    ensures
        ({
            let r = slide_one(a, cur, st, dt);
            abs_i(r.1.x as int) + abs_i(r.1.z as int) <= s0 && r.1.y == st.1.y && (r == st || (
            r.0.y == cur.y && abs_i(r.0.x - cur.x) <= push_bound(s0, dt) && abs_i(r.0.z - cur.z)
                <= push_bound(s0, dt)))
        }),
{
    let new = st.0;
    let vel = st.1;
    let dx = new.x - cur.x;
    let dy = new.y - cur.y;
    let dz = new.z - cur.z;
    if dx == 0 && dy == 0 && dz == 0 {
    } else {
        lemma_sqrt_len(dx, dy, dz);
        let l = sqrt_ceil(dx * dx + dy * dy + dz * dz);
        lemma_dirm(dx, l);
        lemma_dirm(dz, l);
        lemma_push_shift_facts(vel.x as int, tdiv(dx * 1000, l), dt, s0);
        lemma_push_shift_facts(vel.z as int, tdiv(dz * 1000, l), dt, s0);
        lemma_push_bound_cap(s0, dt);
    }
}

/// The slide fold keeps the same invariants as each single response.
proof fn lemma_slide_all_props(
    boxes: Seq<Collidable>,
    new0: V3,
    cur: V3,
    st: (V3, V3),
    dt: int,
    s0: int,
)
    requires
        0 <= dt <= DT_LIMIT as int,
        v3_fits(cur),
        abs_i(st.1.x as int) + abs_i(st.1.z as int) <= s0,
        s0 <= 200_000_000,
    ensures
        ({
            let r = slide_all(boxes, new0, cur, st, dt);
            abs_i(r.1.x as int) + abs_i(r.1.z as int) <= s0 && r.1.y == st.1.y && (r.0 == st.0 || (
            r.0.y == cur.y && abs_i(r.0.x - cur.x) <= push_bound(s0, dt) && abs_i(r.0.z - cur.z)
                <= push_bound(s0, dt)))
        }),
    decreases boxes.len(),
{
    if boxes.len() == 0 {
    } else {
        lemma_slide_all_props(boxes.drop_last(), new0, cur, st, dt, s0);
        let prev = slide_all(boxes.drop_last(), new0, cur, st, dt);
        if in_aabb_xz(new0, boxes.last().aabb) {
            lemma_slide_one_props(boxes.last().aabb, cur, prev, dt, s0);
        }
    }
}

/// Boundary containment: the position `fit_in` resolves to stays
/// inside the world's four boundary planes, provided the starting
/// position leaves the slide response's push room before each edge.
pub proof fn lemma_boundary_containment(
    cs: Seq<Collidable>,
    ds: Seq<DynamicCollidable>,
    cur: V3,
    new: V3,
    vel: V3,
    dt: int,
)
    requires
        v3_fits(cur),
        v3_near(new),
        v3_fits(vel),
        0 <= dt <= DT_LIMIT as int,
        BOTTOM_END + push_bound(abs_i(vel.x as int) + abs_i(vel.z as int), dt) <= cur.x,
        cur.x <= TOP_END - push_bound(abs_i(vel.x as int) + abs_i(vel.z as int), dt),
        LEFT_END + push_bound(abs_i(vel.x as int) + abs_i(vel.z as int), dt) <= cur.z,
        cur.z <= RIGHT_END - push_bound(abs_i(vel.x as int) + abs_i(vel.z as int), dt),
    ensures
        in_world(fit_in_spec(cs, ds, cur, new, vel, dt).0),
{
    let s0 = abs_i(vel.x as int) + abs_i(vel.z as int);
    lemma_push_bound_cap(s0, dt);
    if new.z <= LEFT_END || new.z >= RIGHT_END || new.x <= BOTTOM_END || new.x >= TOP_END {
    } else if in_any_dynamic(ds, new) {
    } else {
        lemma_slide_all_props(cs, new, cur, (new, vel), dt, s0);
    }
}

proof fn lemma_slide_all_identity(
    boxes: Seq<Collidable>,
    new0: V3,
    cur: V3,
    st: (V3, V3),
    dt: int,
)
    requires
        forall|i: int| 0 <= i < boxes.len() ==> !in_aabb_xz(new0, #[trigger] boxes[i].aabb),
    ensures
        slide_all(boxes, new0, cur, st, dt) == st,
    decreases boxes.len(),
{
    if boxes.len() == 0 {
    } else {
        lemma_slide_all_identity(boxes.drop_last(), new0, cur, st, dt);
    }
}

proof fn lemma_slide_all_single(
    boxes: Seq<Collidable>,
    k: int,
    new0: V3,
    cur: V3,
    st: (V3, V3),
    dt: int,
)
    requires
        0 <= k < boxes.len(),
        in_aabb_xz(new0, boxes[k].aabb),
        forall|j: int| 0 <= j < boxes.len() && j != k ==> !in_aabb_xz(new0, #[trigger] boxes[j].aabb),
    ensures
        slide_all(boxes, new0, cur, st, dt) == slide_one(boxes[k].aabb, cur, st, dt),
    decreases boxes.len(),
{
    if k == boxes.len() - 1 {
        lemma_slide_all_identity(boxes.drop_last(), new0, cur, st, dt);
    } else {
        lemma_slide_all_single(boxes.drop_last(), k, new0, cur, st, dt);
    }
}

/// Static impenetrability: a move started clear of every static box's
/// interior resolves to a position still clear of every static box's
/// interior, whatever the proposal and velocity: the resolver's final
/// check rejects a slide that would land inside one.
pub proof fn lemma_static_impenetrability(
    cs: Seq<Collidable>,
    ds: Seq<DynamicCollidable>,
    cur: V3,
    new: V3,
    vel: V3,
    dt: int,
)
    requires
        !strictly_in_any_static(cs, cur),
    ensures
        !strictly_in_any_static(cs, fit_in_spec(cs, ds, cur, new, vel, dt).0),
{
    if new.z <= LEFT_END || new.z >= RIGHT_END || new.x <= BOTTOM_END || new.x >= TOP_END {
    } else if in_any_dynamic(ds, new) {
    } else {
        let slid = slide_all(cs, new, cur, (new, vel), dt);
        if strictly_in_any_static(cs, slid.0) {
        }
    }
}

/// The slide response leaves the box a move entered: when the move
/// starts strictly past one of the box's faces and that box alone is
/// violated, the resolved position is not even boundary-inside it; the
/// pushback crosses back over the entered face.
pub proof fn lemma_slide_exits_entered_box(
    cs: Seq<Collidable>,
    ds: Seq<DynamicCollidable>,
    cur: V3,
    new: V3,
    vel: V3,
    dt: int,
    k: int,
)
    requires
        v3_fits(cur),
        v3_fits(new),
        v3_fits(vel),
        0 <= dt <= DT_LIMIT as int,
        0 <= k < cs.len(),
        in_aabb_xz(new, cs[k].aabb),
        forall|j: int| 0 <= j < cs.len() && j != k ==> !in_aabb_xz(new, #[trigger] cs[j].aabb),
        cur.x > cs[k].aabb.max.x || cur.x < cs[k].aabb.min.x || cur.z < cs[k].aabb.min.z || cur.z
            > cs[k].aabb.max.z,
        LEFT_END < new.z < RIGHT_END,
        BOTTOM_END < new.x < TOP_END,
        !in_any_dynamic(ds, new),
    ensures
        !in_aabb_xz(fit_in_spec(cs, ds, cur, new, vel, dt).0, cs[k].aabb),
{
    let s0 = abs_i(vel.x as int) + abs_i(vel.z as int);
    lemma_slide_all_single(cs, k, new, cur, (new, vel), dt);
    let slid = slide_all(cs, new, cur, (new, vel), dt);
    let a = cs[k].aabb;
    let dx = new.x - cur.x;
    let dy = new.y - cur.y;
    let dz = new.z - cur.z;
    lemma_push_bound_cap(s0, dt);
    if cur.x > a.max.x {
        assert(dx < 0);
        lemma_sqrt_len(dx, dy, dz);
        let l = sqrt_ceil(dx * dx + dy * dy + dz * dz);
        lemma_dirm(dx, l);
        lemma_push_shift_facts(vel.x as int, tdiv(dx * 1000, l), dt, s0);
    } else if cur.x < a.min.x {
        assert(dx > 0);
        lemma_sqrt_len(dx, dy, dz);
        let l = sqrt_ceil(dx * dx + dy * dy + dz * dz);
        lemma_dirm(dx, l);
        lemma_push_shift_facts(vel.x as int, tdiv(dx * 1000, l), dt, s0);
    } else if cur.z < a.min.z {
        assert(dz > 0);
        lemma_sqrt_len(dx, dy, dz);
        let l = sqrt_ceil(dx * dx + dy * dy + dz * dz);
        lemma_dirm(dz, l);
        lemma_push_shift_facts(vel.z as int, tdiv(dz * 1000, l), dt, s0);
    } else {
        assert(cur.z > a.max.z);
        assert(dz < 0);
        lemma_sqrt_len(dx, dy, dz);
        let l = sqrt_ceil(dx * dx + dy * dy + dz * dz);
        lemma_dirm(dz, l);
        lemma_push_shift_facts(vel.z as int, tdiv(dz * 1000, l), dt, s0);
    }
    assert(!in_aabb_xz(slid.0, a));
    assert(!in_aabb_xz(cur, a));
}

} // verus!
