//! Distance-field primitives, CSG combinators and spatial operators.
use vstd::prelude::*;
use crate::fixed::{
    in_range, sat, mul_spec, saturate, fmul, sqrt_floor, lemma_sqrt_floor, lemma_sqrt_of_square, SCALE, LIMIT,
};
use crate::math::{
    min_int, max_int, abs_int, min_smooth_spec, min_smooth, max_smooth, difference_smooth,
    lemma_min_smooth_bounds,
};
use crate::vec3::{Vec3, vec3};
use crate::mat4::{
    Mat4, mat_apply, mat_inverse, translate_seq, in_mat_range, lemma_translate_inverse,
    lemma_translate_back,
};

verus! {

/// Offset used by the central differences that estimate normals (about 2.4e-4).
pub const NORMAL_EPS: i64 = 16;

/// How two child distances combine; the smooth variants carry a blend radius.
#[derive(Clone, Copy, Debug, PartialEq, Eq, Structural)]
pub enum CSGOperator {
    Union,
    Intersect,
    Difference,
    UnionSmooth(i64),
    IntersectSmooth(i64),
    DifferenceSmooth(i64),
}

/// A node of the distance-field tree; each composite node owns its children.
#[derive(Debug)]
pub enum SceneObject {
    /// A sphere of the given radius about the local origin.
    Sphere { radius: i64 },
    /// An axis-aligned box about the local origin with the given half-extents.
    Cube { size: Vec3 },
    /// The plane through the local origin with the given unit normal.
    Plane { normal: Vec3 },
    CSG { a: Box<SceneObject>, b: Box<SceneObject>, op: CSGOperator },
    /// The child sampled through `inverse`, the inverse of the placing transform.
    Transform { a: Box<SceneObject>, inverse: Mat4 },
    /// The child scaled uniformly by `factor`.
    Scale { a: Box<SceneObject>, factor: i64 },
    /// The child tiled along each axis with the given period.
    Repeat { a: Box<SceneObject>, period: Vec3 },
}

impl CSGOperator {
    /// Smooth blends have a positive radius.
    pub open spec fn wf(&self) -> bool {
        match *self {
            CSGOperator::UnionSmooth(k) => 0 < k <= LIMIT,
            CSGOperator::IntersectSmooth(k) => 0 < k <= LIMIT,
            CSGOperator::DifferenceSmooth(k) => 0 < k <= LIMIT,
            _ => true,
        }
    }

    /// Combines the distances `a` and `b` of the two children.
    pub open spec fn combine_spec(&self, a: int, b: int) -> int {
        match *self {
            CSGOperator::Union => min_int(a, b),
            CSGOperator::Intersect => max_int(a, b),
            CSGOperator::Difference => max_int(a, -b),
            CSGOperator::UnionSmooth(k) => min_smooth_spec(a, b, k as int),
            CSGOperator::IntersectSmooth(k) => min_smooth_spec(a, b, -k),
            CSGOperator::DifferenceSmooth(k) => min_smooth_spec(a, -b, -k),
        }
    }

    pub fn combine(&self, a: i64, b: i64) -> (r: i64)
        requires
            self.wf(),
            in_range(a as int),
            in_range(b as int),
        ensures
            r == self.combine_spec(a as int, b as int),
            in_range(r as int),
    {
        match *self {
            CSGOperator::Union => if a <= b { a } else { b },
            CSGOperator::Intersect => if a >= b { a } else { b },
            CSGOperator::Difference => crate::math::difference(a, b),
            CSGOperator::UnionSmooth(k) => min_smooth(a, b, k),
            CSGOperator::IntersectSmooth(k) => max_smooth(a, b, k),
            CSGOperator::DifferenceSmooth(k) => difference_smooth(a, b, k),
        }
    }
}

/// The sample point folded into one tiling cell:
/// `|p| mod period - period / 2` on each axis.
pub open spec fn fold_spec(p: Vec3, period: Vec3) -> Vec3 {
    vec3(
        abs_int(p.x as int) % (period.x as int) - period.x / 2,
        abs_int(p.y as int) % (period.y as int) - period.y / 2,
        abs_int(p.z as int) % (period.z as int) - period.z / 2,
    )
}

/// The normal from central differences: the six distances sampled at
/// `p +- NORMAL_EPS` along each axis, normalized; zero where the differences vanish.
pub open spec fn normal_from(dxp: int, dxm: int, dyp: int, dym: int, dzp: int, dzm: int) -> Vec3 {
    let g = vec3(sat(dxp - dxm), sat(dyp - dym), sat(dzp - dzm));
    if g.length() > 0 {
        g.normalize_spec()
    } else {
        g
    }
}

/// The six points sampled around `p` for its normal, in the order of `normal_from`.
pub open spec fn probe(p: Vec3, i: int) -> Vec3 {
    let e = NORMAL_EPS as int;
    if i == 0 {
        p.plus_spec(vec3(e, 0, 0))
    } else if i == 1 {
        p.plus_spec(vec3(-e, 0, 0))
    } else if i == 2 {
        p.plus_spec(vec3(0, e, 0))
    } else if i == 3 {
        p.plus_spec(vec3(0, -e, 0))
    } else if i == 4 {
        p.plus_spec(vec3(0, 0, e))
    } else {
        p.plus_spec(vec3(0, 0, -e))
    }
}

/// Something that reports a signed distance at each point: negative inside,
/// positive outside.
pub trait DistanceField {
    spec fn field_wf(&self) -> bool;

    spec fn field_at(&self, p: Vec3) -> int;

    fn sdf(&self, from: &Vec3) -> (r: i64)
        requires
            self.field_wf(),
            from.wf(),
        ensures
            r == self.field_at(*from),
            in_range(r as int),
    ;

    /// The surface normal at `p`, estimated from central differences of the field.
    fn sdf_normal(&self, p: Vec3) -> (r: Vec3)
        requires
            self.field_wf(),
            p.wf(),
        ensures
            r == normal_from(
                self.field_at(probe(p, 0)),
                self.field_at(probe(p, 1)),
                self.field_at(probe(p, 2)),
                self.field_at(probe(p, 3)),
                self.field_at(probe(p, 4)),
                self.field_at(probe(p, 5)),
            ),
            r.wf(),
    {
        let dxp = self.sdf(&p.plus(&Vec3::new(NORMAL_EPS, 0, 0)));
        let dxm = self.sdf(&p.plus(&Vec3::new(-NORMAL_EPS, 0, 0)));
        let dyp = self.sdf(&p.plus(&Vec3::new(0, NORMAL_EPS, 0)));
        let dym = self.sdf(&p.plus(&Vec3::new(0, -NORMAL_EPS, 0)));
        let dzp = self.sdf(&p.plus(&Vec3::new(0, 0, NORMAL_EPS)));
        let dzm = self.sdf(&p.plus(&Vec3::new(0, 0, -NORMAL_EPS)));
        let g = Vec3::new(
            saturate(dxp as i128 - dxm as i128),
            saturate(dyp as i128 - dym as i128),
            saturate(dzp as i128 - dzm as i128),
        );
        if g.magnitude() > 0 {
            g.normalize()
        } else {
            g
        }
    }
}

impl SceneObject {
    /// Every parameter is valid: radii and half-extents non-negative, blend
    /// radii, scale factors and periods positive, every value in range.
    pub open spec fn wf(&self) -> bool
        decreases self,
    {
        match self {
            SceneObject::Sphere { radius } => 0 <= *radius <= LIMIT,
            SceneObject::Cube { size } => size.wf() && size.x >= 0 && size.y >= 0 && size.z >= 0,
            SceneObject::Plane { normal } => normal.wf(),
            SceneObject::CSG { a, b, op } => a.wf() && b.wf() && op.wf(),
            SceneObject::Transform { a, inverse } => a.wf() && inverse.wf(),
            SceneObject::Scale { a, factor } => a.wf() && 0 < *factor <= LIMIT,
            SceneObject::Repeat { a, period } => a.wf() && period.wf() && period.x > 0
                && period.y > 0 && period.z > 0,
        }
    }

    /// The signed distance from `p` to the surface of this node.
    pub open spec fn distance(&self, p: Vec3) -> int
        decreases self,
    {
        match self {
            SceneObject::Sphere { radius } => sat(p.length() - *radius),
            SceneObject::Cube { size } => p.abs_spec().minus_spec(*size).max_spec(0).length(),
            SceneObject::Plane { normal } => p.dot_spec(*normal),
            SceneObject::CSG { a, b, op } => op.combine_spec(a.distance(p), b.distance(p)),
            SceneObject::Transform { a, inverse } => a.distance(mat_apply(inverse@, p)),
            SceneObject::Scale { a, factor } => mul_spec(
                a.distance(p.div_by_spec(*factor as int)),
                *factor as int,
            ),
            SceneObject::Repeat { a, period } => a.distance(fold_spec(p, *period)),
        }
    }

    /// The node `a`, placed by `transform`; `None` when `transform` is singular.
    /// The inverse is computed here once, not at each sample.
    pub fn transform(a: SceneObject, transform: &Mat4) -> (r: Option<SceneObject>)
        requires
            a.wf(),
            transform.wf(),
        ensures
            r is None <==> crate::mat4::mat_det(transform@) == 0,
            r matches Some(o) ==> o.wf() && placed(o, a, transform@),
    {
        match transform.invert() {
            Some(inverse) => Some(SceneObject::Transform { a: Box::new(a), inverse }),
            None => None,
        }
    }

    fn eval(&self, from: &Vec3) -> (r: i64)
        requires
            self.wf(),
            from.wf(),
        ensures
            r == self.distance(*from),
            in_range(r as int),
        decreases self,
    {
        match self {
            SceneObject::Sphere { radius } => sphere_sdf(from, *radius),
            SceneObject::Cube { size } => cube_sdf(from, size),
            SceneObject::Plane { normal } => plane_sdf(from, normal),
            SceneObject::CSG { a, b, op } => {
                let da = a.eval(from);
                let db = b.eval(from);
                op.combine(da, db)
            },
            SceneObject::Transform { a, inverse } => a.eval(&inverse.transform_point(from)),
            SceneObject::Scale { a, factor } => {
                let d = a.eval(&from.div_by(*factor));
                fmul(d, *factor)
            },
            SceneObject::Repeat { a, period } => a.eval(&fold(from, period)),
        }
    }
}

impl CSGOperator {
    /// Whether the operator is valid: smooth blends need a positive radius.
    pub fn is_valid(&self) -> (r: bool)
        ensures
            r == self.wf(),
    {
        match *self {
            CSGOperator::UnionSmooth(k) => 0 < k && k <= LIMIT,
            CSGOperator::IntersectSmooth(k) => 0 < k && k <= LIMIT,
            CSGOperator::DifferenceSmooth(k) => 0 < k && k <= LIMIT,
            _ => true,
        }
    }
}

impl SceneObject {
    /// Whether every parameter in the tree is valid.
    pub fn is_valid(&self) -> (r: bool)
        ensures
            r == self.wf(),
        decreases self,
    {
        match self {
            SceneObject::Sphere { radius } => 0 <= *radius && *radius <= LIMIT,
            SceneObject::Cube { size } => vec_in_range(size) && size.x >= 0 && size.y >= 0
                && size.z >= 0,
            SceneObject::Plane { normal } => vec_in_range(normal),
            SceneObject::CSG { a, b, op } => a.is_valid() && b.is_valid() && op.is_valid(),
            SceneObject::Transform { a, inverse } => a.is_valid() && mat_in_range(inverse),
            SceneObject::Scale { a, factor } => a.is_valid() && 0 < *factor && *factor <= LIMIT,
            SceneObject::Repeat { a, period } => a.is_valid() && vec_in_range(period) && period.x
                > 0 && period.y > 0 && period.z > 0,
        }
    }
}

fn vec_in_range(v: &Vec3) -> (r: bool)
    ensures
        r == v.wf(),
{
    -LIMIT <= v.x && v.x <= LIMIT && -LIMIT <= v.y && v.y <= LIMIT && -LIMIT <= v.z && v.z
        <= LIMIT
}

fn mat_in_range(m: &Mat4) -> (r: bool)
    ensures
        r == m.wf(),
{
    let mut i: usize = 0;
    while i < 16
        invariant
            i <= 16,
            forall|j: int| 0 <= j < i ==> in_mat_range(#[trigger] m.data[j] as int),
        decreases 16 - i,
    {
        if m.data[i] < -crate::mat4::MAT_LIMIT || m.data[i] > crate::mat4::MAT_LIMIT {
            return false;
        }
        i += 1;
    }
    true
}

impl DistanceField for SceneObject {
    open spec fn field_wf(&self) -> bool {
        self.wf()
    }

    open spec fn field_at(&self, p: Vec3) -> int {
        self.distance(p)
    }

    fn sdf(&self, from: &Vec3) -> (r: i64) {
        self.eval(from)
    }
}

fn sphere_sdf(from: &Vec3, radius: i64) -> (r: i64)
    requires
        from.wf(),
        0 <= radius <= LIMIT,
    ensures
        r == sat(from.length() - radius),
        in_range(r as int),
{
    saturate(from.magnitude() as i128 - radius as i128)
}

fn cube_sdf(from: &Vec3, size: &Vec3) -> (r: i64)
    requires
        from.wf(),
        size.wf(),
    ensures
        r == from.abs_spec().minus_spec(*size).max_spec(0).length(),
        in_range(r as int),
{
    from.abs().minus(size).max(0).magnitude()
}

fn plane_sdf(from: &Vec3, normal: &Vec3) -> (r: i64)
    requires
        from.wf(),
        normal.wf(),
    ensures
        r == from.dot_spec(*normal),
        in_range(r as int),
{
    from.dot(normal)
}

/// Folds `from` into the tiling cell of the given period.
pub fn fold(from: &Vec3, period: &Vec3) -> (r: Vec3)
    requires
        from.wf(),
        period.wf(),
        period.x > 0,
        period.y > 0,
        period.z > 0,
    ensures
        r == fold_spec(*from, *period),
        r.wf(),
{
    Vec3 {
        x: fold_axis(from.x, period.x),
        y: fold_axis(from.y, period.y),
        z: fold_axis(from.z, period.z),
    }
}

fn fold_axis(v: i64, period: i64) -> (r: i64)
    requires
        in_range(v as int),
        0 < period <= LIMIT,
    ensures
        r == abs_int(v as int) % (period as int) - period / 2,
        -period / 2 <= r < period,
{
    let a: i64 = if v < 0 {
        -v
    } else {
        v
    };
    a % period - period / 2
}

pub open spec fn sphere_node(radius: i64) -> SceneObject {
    SceneObject::Sphere { radius }
}

pub open spec fn cube_node(size: Vec3) -> SceneObject {
    SceneObject::Cube { size }
}

pub open spec fn plane_node(normal: Vec3) -> SceneObject {
    SceneObject::Plane { normal }
}

/// `node` is `child` placed by the transform `m`, whose inverse it holds.
pub open spec fn placed(node: SceneObject, child: SceneObject, m: Seq<int>) -> bool {
    match node {
        SceneObject::Transform { a, inverse } => *a == child && inverse@ == mat_inverse(m),
        _ => false,
    }
}

pub open spec fn csg_node(a: SceneObject, b: SceneObject, op: CSGOperator) -> SceneObject {
    SceneObject::CSG { a: Box::new(a), b: Box::new(b), op }
}

/// A valid node reports a distance in range.
pub proof fn lemma_distance_in_range(o: SceneObject, p: Vec3)
    requires
        o.wf(),
        p.wf(),
    ensures
        in_range(o.distance(p)),
    decreases o,
{
    match o {
        SceneObject::CSG { a, b, op } => {
            lemma_distance_in_range(*a, p);
            lemma_distance_in_range(*b, p);
            match op {
                CSGOperator::UnionSmooth(k) => lemma_min_smooth_bounds(
                    a.distance(p),
                    b.distance(p),
                    k as int,
                ),
                CSGOperator::IntersectSmooth(k) => lemma_min_smooth_bounds(
                    a.distance(p),
                    b.distance(p),
                    -k,
                ),
                CSGOperator::DifferenceSmooth(k) => lemma_min_smooth_bounds(
                    a.distance(p),
                    -b.distance(p),
                    -k,
                ),
                _ => {},
            }
        },
        SceneObject::Transform { a, inverse } => lemma_distance_in_range(*a, mat_apply(inverse@, p)),
        SceneObject::Scale { a, factor } => lemma_distance_in_range(*a, p.div_by_spec(factor as int)),
        SceneObject::Repeat { a, period } => {
            assert(fold_spec(p, period).wf()) by {
                vstd::arithmetic::div_mod::lemma_mod_bound(abs_int(p.x as int), period.x as int);
                vstd::arithmetic::div_mod::lemma_mod_bound(abs_int(p.y as int), period.y as int);
                vstd::arithmetic::div_mod::lemma_mod_bound(abs_int(p.z as int), period.z as int);
            }
            lemma_distance_in_range(*a, fold_spec(p, period));
        },
        _ => {},
    }
}

/// A sphere of radius `r` about the origin: negative strictly inside,
/// positive once the point lies at least one fixed-point unit outside, and
/// zero on the surface (within one unit).
pub proof fn lemma_sphere_sign(radius: i64, p: Vec3)
    requires
        0 <= radius < LIMIT,
        p.wf(),
    ensures
        p.norm_sq() < radius * radius ==> sphere_node(radius).distance(p) < 0,
        p.norm_sq() >= (radius + 1) * (radius + 1) ==> sphere_node(radius).distance(p) > 0,
        radius * radius <= p.norm_sq() < (radius + 1) * (radius + 1) ==> sphere_node(radius).distance(p) == 0,
{
    let n = p.norm_sq();
    let r = radius as int;
    assert(n >= 0) by (nonlinear_arith)
        requires
            n == p.x * p.x + p.y * p.y + p.z * p.z,
    ;
    lemma_sqrt_floor(n, 0);
    let s = sqrt_floor(n);
    if n < r * r {
        if s >= r {
            assert(s * s >= r * r) by (nonlinear_arith)
                requires
                    s >= r,
                    r >= 0,
            ;
        }
    }
    if n >= (r + 1) * (r + 1) {
        if s < r + 1 {
            assert((s + 1) * (s + 1) <= (r + 1) * (r + 1)) by (nonlinear_arith)
                requires
                    s + 1 <= r + 1,
                    s >= 0,
            ;
        }
    }
    if r * r <= n < (r + 1) * (r + 1) {
        lemma_sqrt_floor(n, r);
    }
}

/// A plane through the origin: positive where the point lies at least one
/// fixed-point unit along the normal, negative behind it, zero on it.
pub proof fn lemma_plane_sign(normal: Vec3, p: Vec3)
    requires
        normal.wf(),
        p.wf(),
    ensures
        p.x * normal.x + p.y * normal.y + p.z * normal.z >= SCALE ==> plane_node(normal).distance(p) > 0,
        p.x * normal.x + p.y * normal.y + p.z * normal.z < 0 ==> plane_node(normal).distance(p) < 0,
        p.x * normal.x + p.y * normal.y + p.z * normal.z == 0 ==> plane_node(normal).distance(p) == 0,
{
    let raw = p.x * normal.x + p.y * normal.y + p.z * normal.z;
    crate::math::lemma_mul_bounded(p.x as int, normal.x as int, LIMIT as int, LIMIT as int);
    crate::math::lemma_mul_bounded(p.y as int, normal.y as int, LIMIT as int, LIMIT as int);
    crate::math::lemma_mul_bounded(p.z as int, normal.z as int, LIMIT as int, LIMIT as int);
    if raw >= SCALE {
        vstd::arithmetic::div_mod::lemma_div_is_ordered(SCALE as int, raw, SCALE as int);
        vstd::arithmetic::div_mod::lemma_div_by_self(SCALE as int);
    }
    if raw < 0 {
        vstd::arithmetic::div_mod::lemma_fundamental_div_mod(raw, SCALE as int);
    }
}

/// A box: positive wherever the point lies outside it along some axis; the
/// distance is inexact inside, where it is zero.
pub proof fn lemma_cube_sign(size: Vec3, p: Vec3)
    requires
        size.wf(),
        size.x >= 0,
        size.y >= 0,
        size.z >= 0,
        p.wf(),
    ensures
        (abs_int(p.x as int) > size.x || abs_int(p.y as int) > size.y || abs_int(p.z as int)
            > size.z) ==> cube_node(size).distance(p) > 0,
        (abs_int(p.x as int) <= size.x && abs_int(p.y as int) <= size.y && abs_int(p.z as int)
            <= size.z) ==> cube_node(size).distance(p) == 0,
{
    let q = p.abs_spec().minus_spec(size).max_spec(0);
    let n = q.norm_sq();
    assert(q.x * q.x >= 0 && q.y * q.y >= 0 && q.z * q.z >= 0) by (nonlinear_arith);
    lemma_sqrt_floor(n, 0);
    if q.x > 0 || q.y > 0 || q.z > 0 {
        assert(n >= 1) by (nonlinear_arith)
            requires
                q.x >= 0,
                q.y >= 0,
                q.z >= 0,
                q.x > 0 || q.y > 0 || q.z > 0,
                n == q.x * q.x + q.y * q.y + q.z * q.z,
        ;
        lemma_sqrt_floor(n, sqrt_floor(n));
        assert(sqrt_floor(n) >= 1) by (nonlinear_arith)
            requires
                n >= 1,
                n < (sqrt_floor(n) + 1) * (sqrt_floor(n) + 1),
                sqrt_floor(n) >= 0,
        ;
    } else {
        lemma_sqrt_floor(0, 0);
    }
}

/// The hard combinators: a union reports the lesser child distance, an
/// intersection the greater, and a difference `max(a, -b)`, at every point.
pub proof fn lemma_csg_combinators(a: SceneObject, b: SceneObject, p: Vec3)
    ensures
        csg_node(a, b, CSGOperator::Union).distance(p) == min_int(a.distance(p), b.distance(p)),
        csg_node(a, b, CSGOperator::Intersect).distance(p) == max_int(a.distance(p), b.distance(p)),
        csg_node(a, b, CSGOperator::Difference).distance(p) == max_int(a.distance(p), -b.distance(p)),
{
}

/// A smooth union never lies above the hard union of the same children, and at
/// most `k / 4` (plus rounding) below it: it converges to the hard union as
/// `k` shrinks.
pub proof fn lemma_smooth_union_bounds(a: SceneObject, b: SceneObject, k: i64, p: Vec3)
    requires
        a.wf(),
        b.wf(),
        0 < k <= LIMIT,
        p.wf(),
    ensures
        csg_node(a, b, CSGOperator::UnionSmooth(k)).distance(p) <= csg_node(a, b, CSGOperator::Union).distance(p),
        csg_node(a, b, CSGOperator::UnionSmooth(k)).distance(p) >= sat(min_int(a.distance(p), b.distance(p)) - k / 4 - 1),
{
    lemma_distance_in_range(a, p);
    lemma_distance_in_range(b, p);
    lemma_min_smooth_bounds(a.distance(p), b.distance(p), k as int);
}

/// A sphere placed by a translation by `t` reports its full interior depth,
/// `-radius`, at `t`, its new centre.
pub proof fn lemma_translated_sphere_center(radius: i64, t: Vec3, node: SceneObject)
    requires
        0 <= radius <= LIMIT,
        t.wf(),
        in_mat_range(t.x as int),
        in_mat_range(t.y as int),
        in_mat_range(t.z as int),
        placed(node, sphere_node(radius), translate_seq(t.x as int, t.y as int, t.z as int)),
    ensures
        node.distance(t) == -radius,
{
    lemma_translate_inverse(t.x as int, t.y as int, t.z as int);
    lemma_translate_back(t);
    lemma_sqrt_floor(0, 0);
    let origin = vec3(0, 0, 0);
    assert(origin.norm_sq() == 0);
    assert(origin.length() == 0);
    assert(sphere_node(radius).distance(origin) == -radius);
    match node {
        SceneObject::Transform { a, inverse } => {
            assert(inverse@ == translate_seq(-t.x, -t.y, -t.z));
            assert(mat_apply(inverse@, t) == origin);
        },
        _ => {},
    }
}

/// On the positive X axis the normal estimated for a sphere about the origin is
/// exactly the unit X vector: it points radially outward.
pub proof fn lemma_sphere_normal_on_axis(radius: i64, x: i64)
    requires
        0 <= radius <= LIMIT,
        NORMAL_EPS <= x <= LIMIT - NORMAL_EPS,
    ensures
        ({
            let s = sphere_node(radius);
            let p = vec3(x as int, 0, 0);
            normal_from(
                s.distance(probe(p, 0)),
                s.distance(probe(p, 1)),
                s.distance(probe(p, 2)),
                s.distance(probe(p, 3)),
                s.distance(probe(p, 4)),
                s.distance(probe(p, 5)),
            ) == vec3(SCALE as int, 0, 0)
        }),
{
    let e = NORMAL_EPS as int;
    let s = sphere_node(radius);
    let p = vec3(x as int, 0, 0);
    let r = radius as int;
    let xi = x as int;
    lemma_sqrt_of_square(xi + e);
    lemma_sqrt_of_square(xi - e);
    assert(probe(p, 0).norm_sq() == (xi + e) * (xi + e));
    assert(probe(p, 1).norm_sq() == (xi - e) * (xi - e));
    assert(s.distance(probe(p, 0)) - s.distance(probe(p, 1)) == 2 * e);
    assert(probe(p, 2) == vec3(xi, e, 0) && probe(p, 3) == vec3(xi, -e, 0));
    assert(probe(p, 4) == vec3(xi, 0, e) && probe(p, 5) == vec3(xi, 0, -e));
    assert(xi * xi + e * e + 0 * 0 == xi * xi + (-e) * (-e) + 0 * 0) by (nonlinear_arith);
    assert(probe(p, 2).norm_sq() == probe(p, 3).norm_sq());
    assert(probe(p, 4).norm_sq() == probe(p, 5).norm_sq());
    let g = vec3(2 * e, 0, 0);
    assert(g.norm_sq() == (2 * e) * (2 * e));
    lemma_sqrt_of_square(2 * e);
    assert(g.length() == 2 * e);
    assert(crate::fixed::div_spec(2 * e, 2 * e) == SCALE) by {
        vstd::arithmetic::div_mod::lemma_div_multiples_vanish(SCALE as int, 2 * e);
        assert(2 * e * SCALE == (2 * e) * SCALE);
    }
    assert(crate::fixed::div_spec(0, 2 * e) == 0);
}

} // verus!
