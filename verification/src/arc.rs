//! The piecewise-linear "rise then fall" flight arc shared by the
//! football's launches and the enemies' knockback flights: the first
//! half interpolates toward the target at flight height, the second
//! half interpolates from the start at flight height down to the target.

use vstd::prelude::*;
use crate::fx::{fits, tdiv, abs_i, div_trunc, lemma_tdiv_multiple, lemma_tdiv_bounds, DT_LIMIT};
use crate::vec3::{V3, v3_fits};

verus! {

/// Total flight time of a launch or knockback arc, milliseconds.
pub const FLIGHT_TIME: i64 = 2000;

/// Peak height of the arc, milli-units.
pub const FLIGHT_HEIGHT: i64 = 20_000;

/// Linear interpolation from `a` to `b` at fraction `t / ft`, truncating.
pub open spec fn lerp1(a: int, b: int, t: int, ft: int) -> int {
    a + tdiv((b - a) * t, ft)
}

/// Where the arc from `start` to `target` stands at time `t` of a flight
/// lasting `ft`, peaking at height `h`.
pub open spec fn arc_at(start: V3, target: V3, t: int, ft: int, h: int) -> V3 {
    if 2 * t <= ft {
        V3 {
            x: lerp1(start.x as int, target.x as int, t, ft) as i64,
            y: lerp1(start.y as int, h, t, ft) as i64,
            z: lerp1(start.z as int, target.z as int, t, ft) as i64,
        }
    } else {
        V3 {
            x: lerp1(start.x as int, target.x as int, t, ft) as i64,
            y: lerp1(h, target.y as int, t, ft) as i64,
            z: lerp1(start.z as int, target.z as int, t, ft) as i64,
        }
    }
}

fn lerp1_exec(a: i64, b: i64, t: i64, ft: i64) -> (r: i64)
    requires
        fits(a as int),
        fits(b as int),
        0 < ft <= DT_LIMIT,
        0 <= t <= ft,
    ensures
        r == lerp1(a as int, b as int, t as int, ft as int),
        fits(r as int),
{
    proof {
        assert(-0x4000_0000_0000_0000 <= (b - a) * t <= 0x4000_0000_0000_0000 && abs_i(
            (b - a) * t,
        ) <= abs_i(b - a) * ft) by (nonlinear_arith)
            requires
                fits(a as int),
                fits(b as int),
                0 < ft <= DT_LIMIT,
                0 <= t <= ft,
        ;
        lemma_tdiv_bounds((b - a) * t, ft as int);
        crate::fx::lemma_tdiv_abs((b - a) * t, ft as int);
        crate::fx::lemma_tdiv_mono_nonneg(abs_i((b - a) * t), abs_i(b - a) * (ft as int), ft as int);
        lemma_tdiv_multiple(abs_i(b - a), ft as int);
        assert((b >= a ==> (b - a) * t >= 0) && (b < a ==> (b - a) * t <= 0)) by (nonlinear_arith)
            requires
                t >= 0,
        ;
    }
    let d: i64 = b - a;
    let num: i64 = d * t;
    a + div_trunc(num, ft)
}

/// Evaluate the flight arc; the result is exactly `arc_at`.
pub fn arc_position(start: V3, target: V3, t: i64, flight_time: i64, flight_height: i64) -> (p: V3)
    requires
        v3_fits(start),
        v3_fits(target),
        fits(flight_height as int),
        0 < flight_time <= DT_LIMIT,
        0 <= t <= flight_time,
    ensures
        p == arc_at(start, target, t as int, flight_time as int, flight_height as int),
        v3_fits(p),
{
    if 2 * t <= flight_time {
        V3 {
            x: lerp1_exec(start.x, target.x, t, flight_time),
            y: lerp1_exec(start.y, flight_height, t, flight_time),
            z: lerp1_exec(start.z, target.z, t, flight_time),
        }
    } else {
        V3 {
            x: lerp1_exec(start.x, target.x, t, flight_time),
            y: lerp1_exec(flight_height, target.y, t, flight_time),
            z: lerp1_exec(start.z, target.z, t, flight_time),
        }
    }
}

/// The arc starts exactly at `start`, lands exactly on `target`, and at
/// the midpoint of an even-length flight stands at the component-wise
/// midpoint between `start` and the peak; when the flight starts at the
/// flight height the midpoint is exactly at that height over the XZ
/// midpoint of start and target.
pub proof fn lemma_arc_round_trip(start: V3, target: V3, ft: int, h: int)
    requires
        v3_fits(start),
        v3_fits(target),
        fits(h),
        0 < ft <= DT_LIMIT as int,
    ensures
        arc_at(start, target, 0, ft, h) == start,
        arc_at(start, target, ft, ft, h) == target,
        ft % 2 == 0 ==> arc_at(start, target, ft / 2, ft, h) == (V3 {
            x: (start.x + tdiv(target.x - start.x, 2)) as i64,
            y: (start.y + tdiv(h - start.y, 2)) as i64,
            z: (start.z + tdiv(target.z - start.z, 2)) as i64,
        }),
        ft % 2 == 0 && start.y == h ==> arc_at(start, target, ft / 2, ft, h).y == h,
{
    assert forall|a: int, b: int| fits(a) && fits(b) implies lerp1(a, b, 0, ft) == a && lerp1(
        a,
        b,
        ft,
        ft,
    ) == b by {
        assert((b - a) * 0 == 0) by (nonlinear_arith);
        lemma_tdiv_bounds(0, ft);
        assert((b - a) * ft == (b - a) * ft);
        lemma_tdiv_multiple(b - a, ft);
    }
    assert(arc_at(start, target, 0, ft, h) == start);
    assert(!(2 * ft <= ft));
    assert(arc_at(start, target, ft, ft, h) == target);
    if ft % 2 == 0 {
        let m = ft / 2;
        vstd::arithmetic::div_mod::lemma_fundamental_div_mod(ft, 2);
        assert(ft == 2 * m);
        assert forall|a: int, b: int| fits(a) && fits(b) implies lerp1(a, b, m, ft) == a + tdiv(
            b - a,
            2,
        ) by {
            lemma_half_scale(b - a, m);
        }
        assert(2 * m <= ft);
    }
}

/// Scaling numerator and denominator by the same positive factor keeps
/// the truncated quotient: `(k * m) / (2 * m) == k / 2`.
proof fn lemma_half_scale(k: int, m: int)
    requires
        m > 0,
    ensures
        tdiv(k * m, 2 * m) == tdiv(k, 2),
{
    if k >= 0 {
        lemma_half_scale_nonneg(k, m);
    } else {
        lemma_half_scale_nonneg(-k, m);
        assert(-(k * m) == (-k) * m) by (nonlinear_arith);
    }
}

proof fn lemma_half_scale_nonneg(k: int, m: int)
    requires
        m > 0,
        k >= 0,
    ensures
        (k * m) / (2 * m) == k / 2,
{
    let q = k / 2;
    let r = k % 2;
    vstd::arithmetic::div_mod::lemma_fundamental_div_mod(k, 2);
    vstd::arithmetic::div_mod::lemma_mod_division_less_than_divisor(k, 2);
    assert(k * m == (2 * m) * q + r * m) by (nonlinear_arith)
        requires
            k == 2 * q + r,
    ;
    assert(0 <= r * m < 2 * m) by (nonlinear_arith)
        requires
            0 <= r < 2,
            m > 0,
    ;
    vstd::arithmetic::div_mod::lemma_fundamental_div_mod_converse(k * m, 2 * m, q, r * m);
}

} // verus!
