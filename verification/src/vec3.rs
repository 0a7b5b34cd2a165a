//! 3D vectors in milli-unit fixed point, with the squared-length and
//! squared-distance forms the collision and agent code reasons over, and
//! the dead-zone direction quantization every actor accelerates by.

use vstd::prelude::*;
use crate::fx::{fits, tdiv, abs_i, div_trunc};

verus! {

/// A point or vector in world space, in milli-units.
#[derive(Clone, Copy, PartialEq, Eq, Structural, Debug)]
pub struct V3 {
    pub x: i64,
    pub y: i64,
    pub z: i64,
}

pub open spec fn v3_fits(v: V3) -> bool {
    fits(v.x as int) && fits(v.y as int) && fits(v.z as int)
}

/// A looser cap for points already integrated one tick past a fitting
/// position (a candidate position handed to the resolver).
pub open spec fn v3_near(v: V3) -> bool {
    -200_000_000 <= v.x <= 200_000_000 && -200_000_000 <= v.y <= 200_000_000 && -200_000_000
        <= v.z <= 200_000_000
}

pub open spec fn sq(a: int) -> int {
    a * a
}

pub open spec fn len2(v: V3) -> int {
    sq(v.x as int) + sq(v.y as int) + sq(v.z as int)
}

pub open spec fn dist2(a: V3, b: V3) -> int {
    sq(a.x - b.x) + sq(a.y - b.y) + sq(a.z - b.z)
}

/// A direction whose components were quantized to minus one, zero or
/// plus one unit (in milli-units).
pub open spec fn is_quantized_dir(v: V3) -> bool {
    (v.x == -1000 || v.x == 0 || v.x == 1000) && (v.y == -1000 || v.y == 0 || v.y == 1000) && (
    v.z == -1000 || v.z == 0 || v.z == 1000)
}

/// One quantized component: zero inside the dead zone of a tenth of a
/// unit, else a full unit carrying the sign. The quantized values lie
/// outside the dead zone themselves, so quantizing is idempotent.
pub open spec fn signum_dead(c: int) -> int {
    if -100 < c < 100 {
        0
    } else if c > 0 {
        1000
    } else {
        -1000
    }
}

/// A vector quantized component-wise.
pub open spec fn quantized(v: V3) -> V3 {
    V3 {
        x: signum_dead(v.x as int) as i64,
        y: signum_dead(v.y as int) as i64,
        z: signum_dead(v.z as int) as i64,
    }
}

/// Quantization is idempotent: a quantized vector is a fixed point of
/// the quantization.
pub proof fn lemma_zero_signum_idempotent(v: V3)
    ensures
        quantized(quantized(v)) == quantized(v),
{
}

impl V3 {
    pub fn new(x: i64, y: i64, z: i64) -> (r: V3)
        ensures
            r == (V3 { x, y, z }),
    {
        V3 { x, y, z }
    }

    pub fn zero() -> (r: V3)
        ensures
            r == (V3 { x: 0i64, y: 0i64, z: 0i64 }),
    {
        V3 { x: 0, y: 0, z: 0 }
    }

    pub fn add(self, o: V3) -> (r: V3)
        requires
            fits(self.x + o.x),
            fits(self.y + o.y),
            fits(self.z + o.z),
        ensures
            r.x == self.x + o.x,
            r.y == self.y + o.y,
            r.z == self.z + o.z,
    {
        V3 { x: self.x + o.x, y: self.y + o.y, z: self.z + o.z }
    }

    pub fn sub(self, o: V3) -> (r: V3)
        requires
            v3_fits(self),
            v3_fits(o),
        ensures
            r.x == self.x - o.x,
            r.y == self.y - o.y,
            r.z == self.z - o.z,
    {
        V3 { x: self.x - o.x, y: self.y - o.y, z: self.z - o.z }
    }

    /// Squared length; exact.
    pub fn len2_u64(&self) -> (r: u64)
        requires
            abs_i(self.x as int) <= 1_500_000_000,
            abs_i(self.y as int) <= 1_500_000_000,
            abs_i(self.z as int) <= 1_500_000_000,
        ensures
            r as int == len2(*self),
            r <= 9_000_000_000_000_000_000,
    {
        proof {
            assert(sq(self.x as int) + sq(self.y as int) + sq(self.z as int)
                <= 3 * (1_500_000_000int * 1_500_000_000int) && 3 * (1_500_000_000int
                * 1_500_000_000int) <= 9_000_000_000_000_000_000 && sq(self.x as int) >= 0 && sq(
                self.y as int) >= 0 && sq(self.z as int) >= 0) by (nonlinear_arith)
                requires
                    abs_i(self.x as int) <= 1_500_000_000,
                    abs_i(self.y as int) <= 1_500_000_000,
                    abs_i(self.z as int) <= 1_500_000_000,
            ;
        }
        let xx: i64 = self.x * self.x;
        let yy: i64 = self.y * self.y;
        let zz: i64 = self.z * self.z;
        (xx + yy + zz) as u64
    }

    /// Squared distance to another point; exact.
    pub fn dist2_u64(&self, o: &V3) -> (r: u64)
        requires
            v3_near(*self),
            v3_near(*o),
        ensures
            r as int == dist2(*self, *o),
            r <= 4_000_000_000_000_000_000,
    {
        proof {
            assert(sq(self.x - o.x) + sq(self.y - o.y) + sq(self.z - o.z) <= 3 * (
            400_000_000int * 400_000_000int) && sq(self.x - o.x) >= 0 && sq(self.y - o.y) >= 0
                && sq(self.z - o.z) >= 0 && 3 * (400_000_000int * 400_000_000int)
                <= 4_000_000_000_000_000_000) by (nonlinear_arith)
                requires
                    v3_near(*self),
                    v3_near(*o),
            ;
        }
        let dx: i64 = self.x - o.x;
        let dy: i64 = self.y - o.y;
        let dz: i64 = self.z - o.z;
        ((dx * dx) + (dy * dy) + (dz * dz)) as u64
    }

    /// Scale a vector by `num / den` with truncation, component-wise.
    pub fn scale_div(self, num: i64, den: i64) -> (r: V3)
        requires
            den > 0,
            -0x4000_0000_0000_0000 <= self.x * num <= 0x4000_0000_0000_0000,
            -0x4000_0000_0000_0000 <= self.y * num <= 0x4000_0000_0000_0000,
            -0x4000_0000_0000_0000 <= self.z * num <= 0x4000_0000_0000_0000,
        ensures
            r.x == tdiv(self.x * num, den as int),
            r.y == tdiv(self.y * num, den as int),
            r.z == tdiv(self.z * num, den as int),
    {
        V3 {
            x: div_trunc(self.x * num, den),
            y: div_trunc(self.y * num, den),
            z: div_trunc(self.z * num, den),
        }
    }

    /// Quantize each component to a signed unit or zero, with a dead
    /// zone of a tenth of a unit, turning continuous steering into the
    /// game's snappy eight-directional acceleration.
    pub fn zero_signum(&self) -> (r: V3)
        requires
            v3_near(*self),
        ensures
            r == quantized(*self),
            is_quantized_dir(r),
    {
        V3 {
            x: signum_dead_exec(self.x),
            y: signum_dead_exec(self.y),
            z: signum_dead_exec(self.z),
        }
    }
}

fn signum_dead_exec(c: i64) -> (r: i64)
    requires
        -200_000_000 <= c <= 200_000_000,
    ensures
        r == signum_dead(c as int),
{
    if c < 100 && c > -100 {
        0
    } else if c > 0 {
        1000
    } else {
        -1000
    }
}

} // verus!
