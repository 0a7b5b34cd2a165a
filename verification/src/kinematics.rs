//! The shared velocity integrator: exponential friction decay, quantized
//! acceleration toward a desired direction, and a max-speed clamp. Player,
//! enemies and the combine all move through this one step.

use vstd::prelude::*;
use crate::fx::{
    fits, tdiv, abs_i, sqrt_ceil, lemma_tdiv_bounds, div_trunc, ceil_isqrt, SPEED_LIMIT, DT_LIMIT,
};
use crate::vec3::{V3, v3_fits, len2, is_quantized_dir};

verus! {

/// Velocity after one tick's friction decay: each component scaled by
/// `fnum / 1000`, where the caller derives `fnum` from the actor's
/// friction constant raised to the elapsed time.
pub open spec fn decay(v: V3, fnum: int) -> V3 {
    V3 {
        x: tdiv(v.x * fnum, 1000) as i64,
        y: tdiv(v.y * fnum, 1000) as i64,
        z: tdiv(v.z * fnum, 1000) as i64,
    }
}

/// Velocity after accelerating one tick along a quantized direction
/// (components a signed milli-unit or zero): each chosen axis gains
/// `speed * dt / 1000` milli-units per second, signed by the direction.
pub open spec fn accelerated(v: V3, dir: V3, speed: int, dt: int) -> V3 {
    V3 {
        x: (v.x + tdiv(dir.x * tdiv(speed * dt, 1000), 1000)) as i64,
        y: (v.y + tdiv(dir.y * tdiv(speed * dt, 1000), 1000)) as i64,
        z: (v.z + tdiv(dir.z * tdiv(speed * dt, 1000), 1000)) as i64,
    }
}

/// Velocity clamped to length at most `speed`: unchanged when already
/// inside, else scaled by `speed` over the ceiling square root of its
/// squared length.
pub open spec fn clamped(v: V3, speed: int) -> V3 {
    if len2(v) <= speed * speed {
        v
    } else {
        let l = sqrt_ceil(len2(v));
        V3 {
            x: tdiv(v.x * speed, l) as i64,
            y: tdiv(v.y * speed, l) as i64,
            z: tdiv(v.z * speed, l) as i64,
        }
    }
}

/// The whole integration step on one tick's inputs.
pub open spec fn step_velocity(v: V3, dir: V3, speed: int, fnum: int, dt: int) -> V3 {
    clamped(accelerated(decay(v, fnum), dir, speed, dt), speed)
}

proof fn lemma_abs_tdiv(a: int, b: int)
    requires
        b > 0,
    ensures
        abs_i(tdiv(a, b)) == tdiv(abs_i(a), b),
{
    lemma_tdiv_bounds(a, b);
}

pub(crate) proof fn lemma_scaled_len2_le(a1: int, a2: int, a3: int, s: int, l: int, q1: int, q2: int, q3: int)
    requires
        l > 0,
        s >= 0,
        a1 * a1 + a2 * a2 + a3 * a3 <= l * l,
        q1 == tdiv(a1 * s, l),
        q2 == tdiv(a2 * s, l),
        q3 == tdiv(a3 * s, l),
    ensures
        q1 * q1 + q2 * q2 + q3 * q3 <= s * s,
{
    lemma_scaled_sq_le(a1, s, l, q1);
    lemma_scaled_sq_le(a2, s, l, q2);
    lemma_scaled_sq_le(a3, s, l, q3);
    assert((q1 * q1 + q2 * q2 + q3 * q3) * (l * l) <= (a1 * a1 + a2 * a2 + a3 * a3) * (s * s))
        by (nonlinear_arith)
        requires
            (q1 * q1) * (l * l) <= (a1 * a1) * (s * s),
            (q2 * q2) * (l * l) <= (a2 * a2) * (s * s),
            (q3 * q3) * (l * l) <= (a3 * a3) * (s * s),
    ;
    assert(q1 * q1 + q2 * q2 + q3 * q3 <= s * s) by (nonlinear_arith)
        requires
            l > 0,
            (q1 * q1 + q2 * q2 + q3 * q3) * (l * l) <= (a1 * a1 + a2 * a2 + a3 * a3) * (s * s),
            a1 * a1 + a2 * a2 + a3 * a3 <= l * l,
            s * s >= 0,
    ;
}

proof fn lemma_scaled_sq_le(a: int, s: int, l: int, q: int)
    requires
        l > 0,
        s >= 0,
        q == tdiv(a * s, l),
    ensures
        (q * q) * (l * l) <= (a * a) * (s * s),
{
    let b = a * s;
    lemma_abs_tdiv(b, l);
    let qa = abs_i(q);
    assert(qa == abs_i(b) / l);
    vstd::arithmetic::div_mod::lemma_fundamental_div_mod(abs_i(b), l);
    vstd::arithmetic::div_mod::lemma_mod_division_less_than_divisor(abs_i(b), l);
    assert(abs_i(b) == l * (abs_i(b) / l) + abs_i(b) % l);
    assert(qa * l <= abs_i(b)) by (nonlinear_arith)
        requires
            abs_i(b) == l * qa + abs_i(b) % l,
            abs_i(b) % l >= 0,
    ;
    assert((q * q) * (l * l) <= (a * a) * (s * s)) by (nonlinear_arith)
        requires
            qa * l <= abs_i(b),
            qa == abs_i(q),
            b == a * s,
            qa >= 0,
            l > 0,
    ;
}

/// Clamp a velocity's length to at most `speed`; the result is exactly
/// `clamped(v, speed)`.
pub fn clamp_speed(v: V3, speed: i64) -> (r: V3)
    requires
        abs_i(v.x as int) <= 1_500_000_000,
        abs_i(v.y as int) <= 1_500_000_000,
        abs_i(v.z as int) <= 1_500_000_000,
        0 <= speed <= SPEED_LIMIT,
    ensures
        r == clamped(v, speed as int),
        len2(r) <= speed * speed,
        abs_i(r.x as int) <= max_abs3(v),
        abs_i(r.y as int) <= max_abs3(v),
        abs_i(r.z as int) <= max_abs3(v),
{
    let n2: u64 = v.len2_u64();
    proof {
        assert((speed as int) * (speed as int) <= 1_000_000_000_000int) by (nonlinear_arith)
            requires
                0 <= speed <= 1_000_000,
        ;
    }
    let s2: i64 = speed * speed;
    if n2 <= (s2 as u64) {
        proof {
            r_bounds_trivial(v);
        }
        v
    } else {
        let l: u64 = ceil_isqrt(n2);
        proof {
            assert((speed as int) * (speed as int) >= 0) by (nonlinear_arith);
            assert(len2(v) > 0);
            assert(l >= 1) by {
                if l == 0 {
                    assert((l as int) * (l as int) == 0) by (nonlinear_arith)
                        requires
                            l == 0,
                    ;
                }
            }
            assert((v.x as int) * (speed as int) <= 0x4000_0000_0000_0000 && (v.x as int) * (
            speed as int) >= -0x4000_0000_0000_0000 && (v.y as int) * (speed as int)
                <= 0x4000_0000_0000_0000 && (v.y as int) * (speed as int) >= -0x4000_0000_0000_0000
                && (v.z as int) * (speed as int) <= 0x4000_0000_0000_0000 && (v.z as int) * (
            speed as int) >= -0x4000_0000_0000_0000) by (nonlinear_arith)
                requires
                    abs_i(v.x as int) <= 1_500_000_000,
                    abs_i(v.y as int) <= 1_500_000_000,
                    abs_i(v.z as int) <= 1_500_000_000,
                    0 <= speed <= 1_000_000,
            ;
        }
        let r = V3 {
            x: div_trunc(v.x * speed, l as i64),
            y: div_trunc(v.y * speed, l as i64),
            z: div_trunc(v.z * speed, l as i64),
        };
        proof {
            assert(l as int == sqrt_ceil(len2(v)));
            assert((v.x as int) * (v.x as int) + (v.y as int) * (v.y as int) + (v.z as int) * (
            v.z as int) <= (l as int) * (l as int));
            lemma_scaled_len2_le(
                v.x as int,
                v.y as int,
                v.z as int,
                speed as int,
                l as int,
                r.x as int,
                r.y as int,
                r.z as int,
            );
            assert(len2(r) <= (speed as int) * (speed as int));
            lemma_tdiv_bounds((v.x as int) * (speed as int), l as int);
            lemma_tdiv_bounds((v.y as int) * (speed as int), l as int);
            lemma_tdiv_bounds((v.z as int) * (speed as int), l as int);
            lemma_comp_le(v, r, speed as int, l as int);
        }
        r
    }
}

pub open spec fn max_abs3(v: V3) -> int {
    crate::fx::max_i(
        crate::fx::max_i(abs_i(v.x as int), abs_i(v.y as int)),
        abs_i(v.z as int),
    )
}

proof fn r_bounds_trivial(v: V3)
    ensures
        abs_i(v.x as int) <= max_abs3(v),
        abs_i(v.y as int) <= max_abs3(v),
        abs_i(v.z as int) <= max_abs3(v),
{
}

proof fn lemma_comp_le(v: V3, r: V3, s: int, l: int)
    requires
        l > 0,
        s >= 0,
        len2(v) <= l * l,
        len2(v) > s * s,
        abs_i(r.x as int) <= abs_i((v.x as int) * s),
        abs_i(r.y as int) <= abs_i((v.y as int) * s),
        abs_i(r.z as int) <= abs_i((v.z as int) * s),
        r.x as int == tdiv((v.x as int) * s, l),
        r.y as int == tdiv((v.y as int) * s, l),
        r.z as int == tdiv((v.z as int) * s, l),
    ensures
        abs_i(r.x as int) <= max_abs3(v),
        abs_i(r.y as int) <= max_abs3(v),
        abs_i(r.z as int) <= max_abs3(v),
{
    assert(s <= l) by (nonlinear_arith)
        requires
            len2(v) <= l * l,
            len2(v) > s * s,
            s >= 0,
            l > 0,
    ;
    lemma_comp_le_one(v.x as int, s, l, r.x as int, max_abs3(v));
    lemma_comp_le_one(v.y as int, s, l, r.y as int, max_abs3(v));
    lemma_comp_le_one(v.z as int, s, l, r.z as int, max_abs3(v));
}

proof fn lemma_comp_le_one(a: int, s: int, l: int, q: int, m: int)
    requires
        l > 0,
        s >= 0,
        s <= l || a == 0,
        abs_i(a) <= m,
        q == tdiv(a * s, l),
    ensures
        abs_i(q) <= m,
{
    lemma_abs_tdiv(a * s, l);
    assert(abs_i(a * s) == abs_i(a) * s) by (nonlinear_arith)
        requires
            s >= 0,
    ;
    if s <= l {
        assert(abs_i(a) * s <= abs_i(a) * l) by (nonlinear_arith)
            requires
                s <= l,
                abs_i(a) >= 0,
        ;
        crate::fx::lemma_tdiv_mono_nonneg(abs_i(a) * s, abs_i(a) * l, l);
        crate::fx::lemma_tdiv_multiple(abs_i(a), l);
    } else {
        assert(a == 0);
        assert(abs_i(a) * s == 0) by (nonlinear_arith)
            requires
                abs_i(a) == 0,
        ;
        lemma_tdiv_bounds(0, l);
    }
}

/// Friction decay alone, computed.
pub fn decay_velocity(vel: V3, fnum: i64) -> (r: V3)
    requires
        v3_fits(vel),
        0 <= fnum <= 1000,
    ensures
        r == decay(vel, fnum as int),
        abs_i(r.x as int) <= abs_i(vel.x as int),
        abs_i(r.y as int) <= abs_i(vel.y as int),
        abs_i(r.z as int) <= abs_i(vel.z as int),
{
    proof {
        assert(-0x4000_0000_0000_0000 <= (vel.x as int) * (fnum as int) <= 0x4000_0000_0000_0000
            && -0x4000_0000_0000_0000 <= (vel.y as int) * (fnum as int) <= 0x4000_0000_0000_0000
            && -0x4000_0000_0000_0000 <= (vel.z as int) * (fnum as int) <= 0x4000_0000_0000_0000
            && abs_i((vel.x as int) * (fnum as int)) <= abs_i(vel.x as int) * 1000 && abs_i((
        vel.y as int) * (fnum as int)) <= abs_i(vel.y as int) * 1000 && abs_i(
            (vel.z as int) * (fnum as int),
        ) <= abs_i(vel.z as int) * 1000) by (nonlinear_arith)
            requires
                v3_fits(vel),
                0 <= fnum <= 1000,
        ;
        lemma_abs_tdiv((vel.x as int) * (fnum as int), 1000);
        lemma_abs_tdiv((vel.y as int) * (fnum as int), 1000);
        lemma_abs_tdiv((vel.z as int) * (fnum as int), 1000);
        crate::fx::lemma_tdiv_mono_nonneg(
            abs_i((vel.x as int) * (fnum as int)),
            abs_i(vel.x as int) * 1000,
            1000,
        );
        crate::fx::lemma_tdiv_mono_nonneg(
            abs_i((vel.y as int) * (fnum as int)),
            abs_i(vel.y as int) * 1000,
            1000,
        );
        crate::fx::lemma_tdiv_mono_nonneg(
            abs_i((vel.z as int) * (fnum as int)),
            abs_i(vel.z as int) * 1000,
            1000,
        );
        crate::fx::lemma_tdiv_multiple(abs_i(vel.x as int), 1000);
        crate::fx::lemma_tdiv_multiple(abs_i(vel.y as int), 1000);
        crate::fx::lemma_tdiv_multiple(abs_i(vel.z as int), 1000);
    }
    vel.scale_div(fnum, 1000)
}

/// One tick's quantized acceleration alone, computed; the speed may be
/// negative (a player dragged past zero by enough riders accelerates
/// backwards).
pub fn accelerate(vel: V3, dir: V3, speed: i64, dt: i64) -> (r: V3)
    requires
        v3_fits(vel),
        is_quantized_dir(dir),
        -SPEED_LIMIT * 10 <= speed <= SPEED_LIMIT * 10,
        0 <= dt <= DT_LIMIT,
        abs_i(speed as int) * dt <= 1_000_000_000_000,
    ensures
        r == accelerated(vel, dir, speed as int, dt as int),
        abs_i(r.x as int) <= abs_i(vel.x as int) + abs_i(tdiv((speed as int) * (dt as int), 1000)),
        abs_i(r.y as int) <= abs_i(vel.y as int) + abs_i(tdiv((speed as int) * (dt as int), 1000)),
        abs_i(r.z as int) <= abs_i(vel.z as int) + abs_i(tdiv((speed as int) * (dt as int), 1000)),
        abs_i(tdiv((speed as int) * (dt as int), 1000)) <= 1_000_000_000,
{
    proof {
        assert(abs_i((speed as int) * (dt as int)) <= 1_000_000_000_000) by (nonlinear_arith)
            requires
                abs_i(speed as int) * dt <= 1_000_000_000_000,
                0 <= dt,
        ;
        lemma_abs_tdiv((speed as int) * (dt as int), 1000);
        crate::fx::lemma_tdiv_mono_nonneg(
            abs_i((speed as int) * (dt as int)),
            1_000_000_000_000,
            1000,
        );
        crate::fx::lemma_tdiv_multiple(1_000_000_000, 1000);
    }
    let k: i64 = div_trunc(speed * dt, 1000);
    proof {
        lemma_axis_term(dir.x as int, k as int);
        lemma_axis_term(dir.y as int, k as int);
        lemma_axis_term(dir.z as int, k as int);
    }
    V3 {
        x: vel.x + div_trunc(dir.x * k, 1000),
        y: vel.y + div_trunc(dir.y * k, 1000),
        z: vel.z + div_trunc(dir.z * k, 1000),
    }
}

/// One quantized component's acceleration term is the signed tick gain.
proof fn lemma_axis_term(d: int, k: int)
    requires
        d == -1000 || d == 0 || d == 1000,
    ensures
        tdiv(d * k, 1000) == (if d == 1000 {
            k
        } else if d == -1000 {
            -k
        } else {
            0
        }),
        abs_i(tdiv(d * k, 1000)) <= abs_i(k),
{
    if d == 1000 {
        assert(d * k == k * 1000) by (nonlinear_arith)
            requires
                d == 1000,
        ;
        crate::fx::lemma_tdiv_multiple(k, 1000);
    } else if d == -1000 {
        assert(d * k == (-k) * 1000) by (nonlinear_arith)
            requires
                d == -1000,
        ;
        crate::fx::lemma_tdiv_multiple(-k, 1000);
    } else {
        assert(d * k == 0 * 1000) by (nonlinear_arith)
            requires
                d == 0,
        ;
        crate::fx::lemma_tdiv_multiple(0, 1000);
    }
}

/// A position advanced one tick by a velocity.
pub open spec fn moved(pos: V3, vel: V3, dt: int) -> V3 {
    V3 {
        x: (pos.x + tdiv(vel.x * dt, 1000)) as i64,
        y: (pos.y + tdiv(vel.y * dt, 1000)) as i64,
        z: (pos.z + tdiv(vel.z * dt, 1000)) as i64,
    }
}

/// Advance a position one tick; each axis moves by at most a tenth of
/// the position cap, so the result still fits the resolver's candidate
/// bound.
pub fn advance(pos: V3, vel: V3, dt: i64) -> (r: V3)
    requires
        v3_fits(pos),
        0 <= dt <= DT_LIMIT,
        abs_i(vel.x as int) * dt <= 100_000_000_000,
        abs_i(vel.y as int) * dt <= 100_000_000_000,
        abs_i(vel.z as int) * dt <= 100_000_000_000,
        crate::vec3::v3_near(vel),
    ensures
        r == moved(pos, vel, dt as int),
        crate::vec3::v3_near(r),
{
    proof {
        assert(abs_i((vel.x as int) * (dt as int)) <= 100_000_000_000 && abs_i((vel.y as int) * (
        dt as int)) <= 100_000_000_000 && abs_i((vel.z as int) * (dt as int))
            <= 100_000_000_000) by (nonlinear_arith)
            requires
                abs_i(vel.x as int) * dt <= 100_000_000_000,
                abs_i(vel.y as int) * dt <= 100_000_000_000,
                abs_i(vel.z as int) * dt <= 100_000_000_000,
                0 <= dt,
        ;
        lemma_abs_tdiv((vel.x as int) * (dt as int), 1000);
        lemma_abs_tdiv((vel.y as int) * (dt as int), 1000);
        lemma_abs_tdiv((vel.z as int) * (dt as int), 1000);
        crate::fx::lemma_tdiv_mono_nonneg(abs_i((vel.x as int) * (dt as int)), 100_000_000_000, 1000);
        crate::fx::lemma_tdiv_mono_nonneg(abs_i((vel.y as int) * (dt as int)), 100_000_000_000, 1000);
        crate::fx::lemma_tdiv_mono_nonneg(abs_i((vel.z as int) * (dt as int)), 100_000_000_000, 1000);
        crate::fx::lemma_tdiv_multiple(100_000_000, 1000);
    }
    V3 {
        x: pos.x + div_trunc(vel.x * dt, 1000),
        y: pos.y + div_trunc(vel.y * dt, 1000),
        z: pos.z + div_trunc(vel.z * dt, 1000),
    }
}

/// One tick of the shared kinematics: friction decay, quantized
/// acceleration, then the max-speed clamp. After this step the
/// velocity's length never exceeds `speed`.
pub fn integrate_velocity(vel: V3, dir: V3, speed: i64, fnum: i64, dt: i64) -> (r: V3)
    requires
        v3_fits(vel),
        is_quantized_dir(dir),
        0 <= speed <= SPEED_LIMIT,
        0 <= fnum <= 1000,
        0 <= dt <= DT_LIMIT,
    ensures
        r == step_velocity(vel, dir, speed as int, fnum as int, dt as int),
        len2(r) <= speed * speed,
{
    proof {
        assert((speed as int) * (dt as int) <= 1_000_000_000_000) by (nonlinear_arith)
            requires
                0 <= speed <= SPEED_LIMIT,
                0 <= dt <= DT_LIMIT,
        ;
    }
    let d = decay_velocity(vel, fnum);
    let pre = accelerate(d, dir, speed, dt);
    clamp_speed(pre, speed)
}

} // verus!
