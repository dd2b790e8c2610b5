//! Three-component fixed-point vectors.
use vstd::prelude::*;
use crate::fixed::{
    in_range, sat, mul_spec, div_spec, sqrt_floor, saturate, div_floor, fmul, fdiv,
    isqrt, SCALE, LIMIT,
};
use crate::math::{abs_int, min_int, max_int, clamp_int, lemma_mul_bounded};

verus! {

/// A point or direction; each component is a fixed-point scalar.
#[derive(Clone, Copy, Debug, PartialEq, Eq, Structural)]
pub struct Vec3 {
    pub x: i64,
    pub y: i64,
    pub z: i64,
}

/// The vector with the given components, each of which must be in range.
pub open spec fn vec3(x: int, y: int, z: int) -> Vec3 {
    Vec3 { x: x as i64, y: y as i64, z: z as i64 }
}

/// One colour channel: a fixed-point intensity mapped onto `0..=255`.
pub open spec fn channel(c: int) -> int {
    clamp_int(c * 255 / (SCALE as int), 0, 255)
}

impl Vec3 {
    /// Every component is in range.
    pub open spec fn wf(&self) -> bool {
        in_range(self.x as int) && in_range(self.y as int) && in_range(self.z as int)
    }

    /// The squared Euclidean norm, in squared fixed-point units.
    pub open spec fn norm_sq(&self) -> int {
        self.x * self.x + self.y * self.y + self.z * self.z
    }

    /// The Euclidean norm, rounded down and saturated.
    pub open spec fn length(&self) -> int {
        sat(sqrt_floor(self.norm_sq()))
    }

    pub open spec fn plus_spec(&self, o: Vec3) -> Vec3 {
        vec3(sat(self.x + o.x), sat(self.y + o.y), sat(self.z + o.z))
    }

    pub open spec fn minus_spec(&self, o: Vec3) -> Vec3 {
        vec3(sat(self.x - o.x), sat(self.y - o.y), sat(self.z - o.z))
    }

    pub open spec fn neg_spec(&self) -> Vec3 {
        vec3(-self.x, -self.y, -self.z)
    }

    pub open spec fn times_spec(&self, t: int) -> Vec3 {
        vec3(mul_spec(self.x as int, t), mul_spec(self.y as int, t), mul_spec(self.z as int, t))
    }

    pub open spec fn div_by_spec(&self, t: int) -> Vec3 {
        vec3(div_spec(self.x as int, t), div_spec(self.y as int, t), div_spec(self.z as int, t))
    }

    pub open spec fn dot_spec(&self, o: Vec3) -> int {
        sat((self.x * o.x + self.y * o.y + self.z * o.z) / (SCALE as int))
    }

    pub open spec fn normalize_spec(&self) -> Vec3 {
        self.div_by_spec(self.length())
    }

    pub open spec fn reflect_spec(&self, normal: Vec3) -> Vec3 {
        self.minus_spec(normal.times_spec(sat(2 * self.dot_spec(normal))))
    }

    pub open spec fn max_spec(&self, v: int) -> Vec3 {
        vec3(max_int(self.x as int, v), max_int(self.y as int, v), max_int(self.z as int, v))
    }

    pub open spec fn min_spec(&self, v: int) -> Vec3 {
        vec3(min_int(self.x as int, v), min_int(self.y as int, v), min_int(self.z as int, v))
    }

    pub open spec fn abs_spec(&self) -> Vec3 {
        vec3(abs_int(self.x as int), abs_int(self.y as int), abs_int(self.z as int))
    }

    /// The packed `0xAARRGGBB` colour of a vector of fixed-point intensities, opaque.
    pub open spec fn color_spec(&self) -> u32 {
        (0xFF00_0000 + channel(self.x as int) * 0x1_0000 + channel(self.y as int) * 0x100
            + channel(self.z as int)) as u32
    }

    pub fn new(x: i64, y: i64, z: i64) -> (r: Vec3)
        requires
            in_range(x as int),
            in_range(y as int),
            in_range(z as int),
        ensures
            r == vec3(x as int, y as int, z as int),
            r.wf(),
    {
        Vec3 { x, y, z }
    }

    /// Euclidean norm, rounded down.
    pub fn magnitude(&self) -> (r: i64)
        requires
            self.wf(),
        ensures
            r == self.length(),
            0 <= r <= LIMIT,
    {
        proof {
            lemma_mul_bounded(self.x as int, self.x as int, LIMIT as int, LIMIT as int);
            lemma_mul_bounded(self.y as int, self.y as int, LIMIT as int, LIMIT as int);
            lemma_mul_bounded(self.z as int, self.z as int, LIMIT as int, LIMIT as int);
            assert(self.x * self.x >= 0 && self.y * self.y >= 0 && self.z * self.z >= 0)
                by (nonlinear_arith);
        }
        let n: u128 = (self.x as i128 * self.x as i128 + self.y as i128 * self.y as i128
            + self.z as i128 * self.z as i128) as u128;
        let root = isqrt(n);
        saturate(root as i128)
    }

    /// The unit vector in the same direction.
    pub fn normalize(&self) -> (r: Vec3)
        requires
            self.wf(),
            self.length() > 0,
        ensures
            r == self.normalize_spec(),
            r.wf(),
    {
        let m = self.magnitude();
        Vec3 { x: fdiv(self.x, m), y: fdiv(self.y, m), z: fdiv(self.z, m) }
    }

    pub fn dot(&self, other: &Vec3) -> (r: i64)
        requires
            self.wf(),
            other.wf(),
        ensures
            r == self.dot_spec(*other),
    {
        proof {
            lemma_mul_bounded(self.x as int, other.x as int, LIMIT as int, LIMIT as int);
            lemma_mul_bounded(self.y as int, other.y as int, LIMIT as int, LIMIT as int);
            lemma_mul_bounded(self.z as int, other.z as int, LIMIT as int, LIMIT as int);
        }
        let n: i128 = self.x as i128 * other.x as i128 + self.y as i128 * other.y as i128
            + self.z as i128 * other.z as i128;
        saturate(div_floor(n, SCALE as i128))
    }

    pub fn plus(&self, other: &Vec3) -> (r: Vec3)
        requires
            self.wf(),
            other.wf(),
        ensures
            r == self.plus_spec(*other),
            r.wf(),
    {
        Vec3 {
            x: saturate(self.x as i128 + other.x as i128),
            y: saturate(self.y as i128 + other.y as i128),
            z: saturate(self.z as i128 + other.z as i128),
        }
    }

    pub fn minus(&self, other: &Vec3) -> (r: Vec3)
        requires
            self.wf(),
            other.wf(),
        ensures
            r == self.minus_spec(*other),
            r.wf(),
    {
        Vec3 {
            x: saturate(self.x as i128 - other.x as i128),
            y: saturate(self.y as i128 - other.y as i128),
            z: saturate(self.z as i128 - other.z as i128),
        }
    }

    pub fn neg(&self) -> (r: Vec3)
        requires
            self.wf(),
        ensures
            r == self.neg_spec(),
            r.wf(),
    {
        Vec3 { x: -self.x, y: -self.y, z: -self.z }
    }

    /// Scales by the fixed-point factor `t`.
    pub fn times(&self, t: i64) -> (r: Vec3)
        requires
            self.wf(),
            in_range(t as int),
        ensures
            r == self.times_spec(t as int),
            r.wf(),
    {
        Vec3 { x: fmul(self.x, t), y: fmul(self.y, t), z: fmul(self.z, t) }
    }

    /// Divides by the non-zero fixed-point factor `t`.
    pub fn div_by(&self, t: i64) -> (r: Vec3)
        requires
            self.wf(),
            in_range(t as int),
            t != 0,
        ensures
            r == self.div_by_spec(t as int),
            r.wf(),
    {
        Vec3 { x: fdiv(self.x, t), y: fdiv(self.y, t), z: fdiv(self.z, t) }
    }

    /// Mirrors the vector about the plane with the given unit normal:
    /// `v - 2 (v . n) n`.
    pub fn reflect(&self, normal: &Vec3) -> (r: Vec3)
        requires
            self.wf(),
            normal.wf(),
        ensures
            r == self.reflect_spec(*normal),
            r.wf(),
    {
        let d = self.dot(normal);
        let twice = saturate(2 * d as i128);
        self.minus(&normal.times(twice))
    }

    /// Component-wise maximum against a scalar.
    pub fn max(&self, val: i64) -> (r: Vec3)
        requires
            self.wf(),
            in_range(val as int),
        ensures
            r == self.max_spec(val as int),
            r.wf(),
    {
        Vec3 {
            x: if self.x >= val { self.x } else { val },
            y: if self.y >= val { self.y } else { val },
            z: if self.z >= val { self.z } else { val },
        }
    }

    /// Component-wise minimum against a scalar.
    pub fn min(&self, val: i64) -> (r: Vec3)
        requires
            self.wf(),
            in_range(val as int),
        ensures
            r == self.min_spec(val as int),
            r.wf(),
    {
        Vec3 {
            x: if self.x <= val { self.x } else { val },
            y: if self.y <= val { self.y } else { val },
            z: if self.z <= val { self.z } else { val },
        }
    }

    /// Component-wise absolute value.
    pub fn abs(&self) -> (r: Vec3)
        requires
            self.wf(),
        ensures
            r == self.abs_spec(),
            r.wf(),
    {
        Vec3 {
            x: if self.x < 0 { -self.x } else { self.x },
            y: if self.y < 0 { -self.y } else { self.y },
            z: if self.z < 0 { -self.z } else { self.z },
        }
    }

    /// Applies `fun` to each component.
    pub fn apply<F: Fn(i64) -> i64>(&self, fun: &F) -> (r: Vec3)
        requires
            self.wf(),
            forall|v: i64| in_range(v as int) ==> fun.requires((v,)),
            forall|v: i64, w: i64| in_range(v as int) && fun.ensures((v,), w) ==> in_range(w as int),
        ensures
            fun.ensures((self.x,), r.x),
            fun.ensures((self.y,), r.y),
            fun.ensures((self.z,), r.z),
            r.wf(),
    {
        Vec3 { x: fun(self.x), y: fun(self.y), z: fun(self.z) }
    }

    /// Packs the components, read as intensities where `SCALE` is full, into an
    /// opaque `0xAARRGGBB` colour; each channel is clamped to `0..=255`.
    pub fn to_color(&self) -> (r: u32)
        requires
            self.wf(),
        ensures
            r == self.color_spec(),
    {
        let red = to_channel(self.x);
        let green = to_channel(self.y);
        let blue = to_channel(self.z);
        0xFF00_0000u32 + red * 0x1_0000 + green * 0x100 + blue
    }
}

fn to_channel(c: i64) -> (r: u32)
    requires
        in_range(c as int),
    ensures
        r == channel(c as int),
        r <= 255,
{
    let v: i128 = div_floor(c as i128 * 255, SCALE as i128);
    if v < 0 {
        0
    } else if v > 255 {
        255
    } else {
        v as u32
    }
}

} // verus!
