//! Sphere tracing against a scene, and Phong shading of the hit point.
use vstd::prelude::*;
use crate::fixed::{in_range, sat, mul_spec, saturate, fmul, SCALE, LIMIT};
use crate::math::{abs_int, min_int, max_int};
use crate::vec3::{Vec3, vec3};
use crate::shapes::{DistanceField, normal_from, probe};
use crate::scene::Scene;

verus! {

/// A ray hits the surface once the sampled distance is below this (about 0.001).
pub const EPSILON: i64 = 66;

/// A ray that travels this far (30 units) has missed.
pub const MAX_DIST: i64 = 0x1E_0000;

/// The most steps one ray takes before it counts as missed.
pub const MAX_STEPS: u32 = 1024;

/// The intensity added everywhere on a lit surface (about 0.05).
pub const AMBIENT: i64 = 3277;

/// The colour drawn where a ray misses: opaque black.
pub const BACKGROUND: u32 = 0xFF00_0000;

/// How a ray ended.
#[derive(Clone, Copy, Debug, PartialEq, Eq, Structural)]
pub enum RayOutcome {
    /// The surface was reached at this depth along the ray.
    Hit(i64),
    Missed,
}

/// The point at depth `t` along the ray from `o` in direction `d`.
pub open spec fn ray_point(o: Vec3, d: Vec3, t: int) -> Vec3 {
    o.plus_spec(d.times_spec(t))
}

/// Sphere tracing from depth `depth`, with `fuel` steps left.
pub open spec fn march_from(scene: &Scene, o: Vec3, d: Vec3, depth: int, fuel: nat) -> RayOutcome
    decreases fuel,
{
    if fuel == 0 {
        RayOutcome::Missed
    } else {
        let dist = scene.distance(ray_point(o, d, depth));
        if abs_int(dist) < EPSILON {
            RayOutcome::Hit(depth as i64)
        } else {
            let next = sat(depth + dist);
            if next >= MAX_DIST {
                RayOutcome::Missed
            } else {
                march_from(scene, o, d, next, (fuel - 1) as nat)
            }
        }
    }
}

/// Sphere tracing from the ray's origin with the full step budget.
pub open spec fn march_spec(scene: &Scene, o: Vec3, d: Vec3) -> RayOutcome {
    march_from(scene, o, d, 0, MAX_STEPS as nat)
}

/// Steps along the ray by the scene distance until it is within `EPSILON` of a
/// surface (a hit), reaches `MAX_DIST`, or uses up `MAX_STEPS` steps.
pub fn march(scene: &Scene, orig: &Vec3, dir: &Vec3) -> (r: RayOutcome)
    requires
        scene.wf(),
        orig.wf(),
        dir.wf(),
    ensures
        r == march_spec(scene, *orig, *dir),
        r matches RayOutcome::Hit(t) ==> in_range(t as int) && t < MAX_DIST && abs_int(
            scene.distance(ray_point(*orig, *dir, t as int)),
        ) < EPSILON,
{
    let mut depth: i64 = 0;
    let mut fuel: u32 = MAX_STEPS;
    while fuel > 0
        invariant
            scene.wf(),
            orig.wf(),
            dir.wf(),
            in_range(depth as int),
            depth < MAX_DIST,
            march_from(scene, *orig, *dir, depth as int, fuel as nat) == march_spec(
                scene,
                *orig,
                *dir,
            ),
        decreases fuel,
    {
        let p = orig.plus(&dir.times(depth));
        let dist = scene.sdf(&p);
        if dist < EPSILON && dist > -EPSILON {
            return RayOutcome::Hit(depth);
        }
        depth = saturate(depth as i128 + dist as i128);
        if depth >= MAX_DIST {
            return RayOutcome::Missed;
        }
        fuel -= 1;
    }
    RayOutcome::Missed
}

/// The light's position: (-1, 5, -2).
pub open spec fn light_spec() -> Vec3 {
    vec3(-SCALE as int, 5 * SCALE, -2 * SCALE)
}

/// `v` scaled to unit length; the zero vector stays zero.
pub open spec fn unit(v: Vec3) -> Vec3 {
    if v.length() > 0 {
        v.normalize_spec()
    } else {
        v
    }
}

/// `x` to the 32nd power, in fixed point.
pub open spec fn pow32(x: int) -> int {
    let x2 = mul_spec(x, x);
    let x4 = mul_spec(x2, x2);
    let x8 = mul_spec(x4, x4);
    let x16 = mul_spec(x8, x8);
    mul_spec(x16, x16)
}

/// The scene's estimated normal at `p`.
pub open spec fn scene_normal(scene: &Scene, p: Vec3) -> Vec3 {
    normal_from(
        scene.distance(probe(p, 0)),
        scene.distance(probe(p, 1)),
        scene.distance(probe(p, 2)),
        scene.distance(probe(p, 3)),
        scene.distance(probe(p, 4)),
        scene.distance(probe(p, 5)),
    )
}

/// Diffuse plus specular (shininess 32) plus ambient light, capped at full.
pub open spec fn intensity_spec(normal: Vec3, light_dir: Vec3, view_dir: Vec3) -> int {
    let diff = max_int(0, normal.dot_spec(light_dir));
    let reflect_dir = light_dir.neg_spec().reflect_spec(normal);
    let spec = pow32(max_int(0, view_dir.dot_spec(reflect_dir)));
    min_int(SCALE as int, diff + spec + AMBIENT)
}

/// The colour of the surface point `hit` seen from `orig`: the intensity times
/// the base colour (1, 0.5, 0.5).
pub open spec fn shade_spec(scene: &Scene, orig: Vec3, hit: Vec3) -> u32 {
    let i = intensity_spec(
        scene_normal(scene, hit),
        unit(light_spec().minus_spec(hit)),
        unit(orig.minus_spec(hit)),
    );
    vec3(SCALE as int, SCALE / 2, SCALE / 2).times_spec(i).color_spec()
}

/// The colour seen along a ray.
pub open spec fn trace_spec(scene: &Scene, orig: Vec3, dir: Vec3) -> u32 {
    match march_spec(scene, orig, dir) {
        RayOutcome::Hit(t) => shade_spec(scene, orig, ray_point(orig, dir, t as int)),
        RayOutcome::Missed => BACKGROUND,
    }
}

fn unit_or_zero(v: &Vec3) -> (r: Vec3)
    requires
        v.wf(),
    ensures
        r == unit(*v),
        r.wf(),
{
    if v.magnitude() > 0 {
        v.normalize()
    } else {
        *v
    }
}

fn pow32_exec(x: i64) -> (r: i64)
    requires
        in_range(x as int),
    ensures
        r == pow32(x as int),
{
    let x2 = fmul(x, x);
    let x4 = fmul(x2, x2);
    let x8 = fmul(x4, x4);
    let x16 = fmul(x8, x8);
    fmul(x16, x16)
}

/// Phong shading of the surface point `hit` seen from `orig`.
pub fn shade(scene: &Scene, orig: &Vec3, hit: &Vec3) -> (r: u32)
    requires
        scene.wf(),
        orig.wf(),
        hit.wf(),
    ensures
        r == shade_spec(scene, *orig, *hit),
{
    let normal = scene.sdf_normal(*hit);
    let light = Vec3::new(-SCALE, 5 * SCALE, -2 * SCALE);
    let light_dir = unit_or_zero(&light.minus(hit));
    let diff_dot = normal.dot(&light_dir);
    let diff: i64 = if diff_dot > 0 {
        diff_dot
    } else {
        0
    };
    let view_dir = unit_or_zero(&orig.minus(hit));
    let reflect_dir = light_dir.neg().reflect(&normal);
    let spec_dot = view_dir.dot(&reflect_dir);
    let spec = pow32_exec(
        if spec_dot > 0 {
            spec_dot
        } else {
            0
        },
    );
    let total: i64 = diff + spec + AMBIENT;
    let intensity: i64 = if total < SCALE {
        total
    } else {
        SCALE
    };
    Vec3::new(SCALE, SCALE / 2, SCALE / 2).times(intensity).to_color()
}

/// The packed colour of the scene along the ray from `orig` in direction `dir`:
/// the shaded surface where the ray hits, `BACKGROUND` where it misses.
pub fn trace(scene: &Scene, orig: &Vec3, dir: &Vec3) -> (r: u32)
    requires
        scene.wf(),
        orig.wf(),
        dir.wf(),
    ensures
        r == trace_spec(scene, *orig, *dir),
{
    match march(scene, orig, dir) {
        RayOutcome::Hit(depth) => shade(scene, orig, &orig.plus(&dir.times(depth))),
        RayOutcome::Missed => BACKGROUND,
    }
}

/// Traces one ray per direction from a common origin; slot `i` of the result
/// holds the colour seen along `dirs[i]`.
pub fn trace_all(scene: &Scene, orig: &Vec3, dirs: &[Vec3]) -> (r: Vec<u32>)
    requires
        scene.wf(),
        orig.wf(),
        forall|i: int| 0 <= i < dirs@.len() ==> (#[trigger] dirs@[i]).wf(),
    ensures
        r@.len() == dirs@.len(),
        forall|i: int| 0 <= i < dirs@.len() ==> #[trigger] r@[i] == trace_spec(scene, *orig, dirs@[i]),
{
    let mut r: Vec<u32> = Vec::with_capacity(dirs.len());
    let mut i: usize = 0;
    while i < dirs.len()
        invariant
            scene.wf(),
            orig.wf(),
            forall|j: int| 0 <= j < dirs@.len() ==> (#[trigger] dirs@[j]).wf(),
            i <= dirs@.len(),
            r@.len() == i,
            forall|j: int| 0 <= j < i ==> #[trigger] r@[j] == trace_spec(scene, *orig, dirs@[j]),
        decreases dirs@.len() - i,
    {
        r.push(trace(scene, orig, &dirs[i]));
        i += 1;
    }
    r
}

/// A ray that stays at least `EPSILON` from every surface is missed: the march
/// stops within its step budget and reports no hit.
pub proof fn lemma_march_misses(scene: &Scene, o: Vec3, d: Vec3)
    requires
        forall|t: int|
            in_range(t) ==> abs_int(#[trigger] scene.distance(ray_point(o, d, t))) >= EPSILON,
    ensures
        march_spec(scene, o, d) == RayOutcome::Missed,
{
    lemma_march_from_misses(scene, o, d, 0, MAX_STEPS as nat);
}

proof fn lemma_march_from_misses(scene: &Scene, o: Vec3, d: Vec3, depth: int, fuel: nat)
    requires
        in_range(depth),
        forall|t: int|
            in_range(t) ==> abs_int(#[trigger] scene.distance(ray_point(o, d, t))) >= EPSILON,
    ensures
        march_from(scene, o, d, depth, fuel) == RayOutcome::Missed,
    decreases fuel,
{
    if fuel > 0 {
        let dist = scene.distance(ray_point(o, d, depth));
        lemma_march_from_misses(scene, o, d, sat(depth + dist), (fuel - 1) as nat);
    }
}

/// A ray along which every sample ahead of its origin lies at least `EPSILON`
/// outside the scene is missed.
pub proof fn lemma_march_misses_ahead(scene: &Scene, o: Vec3, d: Vec3)
    requires
        forall|t: int|
            0 <= t <= LIMIT ==> #[trigger] scene.distance(ray_point(o, d, t)) >= EPSILON,
    ensures
        march_spec(scene, o, d) == RayOutcome::Missed,
{
    lemma_march_ahead_from(scene, o, d, 0, MAX_STEPS as nat);
}

proof fn lemma_march_ahead_from(scene: &Scene, o: Vec3, d: Vec3, depth: int, fuel: nat)
    requires
        0 <= depth <= LIMIT,
        forall|t: int|
            0 <= t <= LIMIT ==> #[trigger] scene.distance(ray_point(o, d, t)) >= EPSILON,
    ensures
        march_from(scene, o, d, depth, fuel) == RayOutcome::Missed,
    decreases fuel,
{
    if fuel > 0 {
        let dist = scene.distance(ray_point(o, d, depth));
        lemma_march_ahead_from(scene, o, d, sat(depth + dist), (fuel - 1) as nat);
    }
}

/// A ray that starts at least `EPSILON` outside a lone sphere about the origin,
/// on the negative Z axis, and points straight away from it, shows the background.
pub proof fn lemma_ray_away_from_sphere(scene: &Scene, radius: i64, c: i64)
    requires
        scene.shapes@ == seq![crate::shapes::sphere_node(radius)],
        0 <= radius <= LIMIT,
        radius + EPSILON <= c <= LIMIT,
    ensures
        trace_spec(scene, vec3(0, 0, -c), vec3(0, 0, -SCALE as int)) == BACKGROUND,
{
    let o = vec3(0, 0, -c);
    let d = vec3(0, 0, -SCALE as int);
    assert forall|t: int| 0 <= t <= LIMIT implies #[trigger] scene.distance(ray_point(o, d, t))
        >= EPSILON by {
        let z = sat(-c - t);
        assert(mul_spec(-SCALE as int, t) == -t) by {
            vstd::arithmetic::div_mod::lemma_div_multiples_vanish(-t, SCALE as int);
            assert((-(SCALE as int)) * t == (SCALE as int) * (-t)) by (nonlinear_arith);
        }
        assert(mul_spec(0, t) == 0);
        let p = ray_point(o, d, t);
        assert(p == vec3(0, 0, z));
        assert(p.norm_sq() == 0 * 0 + 0 * 0 + z * z);
        assert(p.norm_sq() == (-z) * (-z)) by (nonlinear_arith)
            requires
                p.norm_sq() == 0 * 0 + 0 * 0 + z * z,
        ;
        crate::fixed::lemma_sqrt_of_square(-z);
        assert(p.length() == -z);
        assert(scene.shapes@.len() == 1 && scene.shapes@[0] == crate::shapes::sphere_node(radius));
        reveal_with_fuel(crate::scene::nearest, 2);
    }
    lemma_march_misses_ahead(scene, o, d);
}

} // verus!
