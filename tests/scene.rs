use raymarcher::fixed::{LIMIT, SCALE};
use raymarcher::mat4::Mat4;
use raymarcher::raymarch::{march, trace, trace_all, RayOutcome, BACKGROUND};
use raymarcher::scene::Scene;
use raymarcher::shapes::{fold, CSGOperator, DistanceField, SceneObject};
use raymarcher::vec3::Vec3;

const S: i64 = SCALE;

fn v(x: i64, y: i64, z: i64) -> Vec3 {
    Vec3::new(x, y, z)
}

fn sphere(radius: i64) -> SceneObject {
    SceneObject::Sphere { radius }
}

fn unit_sphere_scene() -> Scene {
    Scene { shapes: vec![sphere(S)] }
}

#[test]
fn unit_sphere_distances() {
    let s = sphere(S);
    assert_eq!(s.sdf(&v(2 * S, 0, 0)), S);
    assert_eq!(s.sdf(&v(0, 0, 0)), -S);
}

#[test]
fn primitive_signs() {
    let s = sphere(S);
    assert!(s.sdf(&v(0, S + 1, 0)) > 0);
    assert!(s.sdf(&v(0, 0, S / 2)) < 0);
    assert_eq!(s.sdf(&v(0, 0, -S)), 0);
    let plane = SceneObject::Plane { normal: v(0, S, 0) };
    assert_eq!(plane.sdf(&v(5 * S, 2 * S, 0)), 2 * S);
    assert_eq!(plane.sdf(&v(0, -S, 0)), -S);
    assert_eq!(plane.sdf(&v(3 * S, 0, -S)), 0);
    let cube = SceneObject::Cube { size: v(S, S, S) };
    assert_eq!(cube.sdf(&v(2 * S, 0, 0)), S);
    assert!(cube.sdf(&v(0, 0, S + 1)) > 0);
    // the box distance is inexact inside
    assert_eq!(cube.sdf(&v(S / 2, 0, 0)), 0);
}

#[test]
fn hard_combinators() {
    let csg = |op| SceneObject::CSG {
        a: Box::new(sphere(S)),
        b: Box::new(SceneObject::Plane { normal: v(0, S, 0) }),
        op,
    };
    let far = v(0, 3 * S, 0);
    assert_eq!(csg(CSGOperator::Union).sdf(&far), 2 * S);
    assert_eq!(csg(CSGOperator::Intersect).sdf(&far), 3 * S);
    assert_eq!(csg(CSGOperator::Difference).sdf(&far), 2 * S);
    let near = v(0, S / 2, 0);
    assert_eq!(csg(CSGOperator::Union).sdf(&near), -S / 2);
    assert_eq!(csg(CSGOperator::Intersect).sdf(&near), S / 2);
    assert_eq!(csg(CSGOperator::Difference).sdf(&near), -S / 2);
}

#[test]
fn smooth_union_lies_below_hard_union() {
    let node = |op| SceneObject::CSG { a: Box::new(sphere(S)), b: Box::new(sphere(S / 2)), op };
    let p = v(S / 4, 3 * S / 4, 0);
    let hard = node(CSGOperator::Union).sdf(&p);
    let smooth = node(CSGOperator::UnionSmooth(S / 4)).sdf(&p);
    assert!(smooth <= hard);
    assert!(smooth >= hard - S / 16 - 1);
    let blended = node(CSGOperator::IntersectSmooth(S / 4)).sdf(&p);
    assert!(blended >= node(CSGOperator::Intersect).sdf(&p));
}

#[test]
fn translated_sphere_reports_interior_at_its_centre() {
    let t = v(3 * S, -2 * S, S);
    let node = SceneObject::transform(sphere(S / 2), &Mat4::translate(&t)).unwrap();
    assert_eq!(node.sdf(&t), -S / 2);
    assert_eq!(node.sdf(&v(3 * S, -2 * S, 3 * S)), 3 * S / 2);
}

#[test]
fn singular_transform_is_rejected() {
    assert!(SceneObject::transform(sphere(S), &Mat4::empty()).is_none());
}

#[test]
fn scaled_sphere_distance() {
    let node = SceneObject::Scale { a: Box::new(sphere(S)), factor: 2 * S };
    assert_eq!(node.sdf(&v(4 * S, 0, 0)), 2 * S);
}

#[test]
fn repetition_folds_into_one_cell() {
    assert_eq!(fold(&v(2 * S, 0, -3 * S), &v(2 * S, 2 * S, 2 * S)), v(-S, -S, 0));
    let node = SceneObject::Repeat { a: Box::new(sphere(S / 2)), period: v(2 * S, 2 * S, 2 * S) };
    assert_eq!(node.sdf(&v(2 * S, 0, 0)), 80743);
    // mirrored, not translated: -x and x land in the same place
    assert_eq!(node.sdf(&v(-S / 3, S, S)), node.sdf(&v(S / 3, S, S)));
}

#[test]
fn scene_takes_nearest_shape() {
    let empty = Scene { shapes: vec![] };
    assert_eq!(empty.sdf(&v(0, 0, 0)), LIMIT);
    let scene = Scene {
        shapes: vec![
            sphere(S),
            SceneObject::transform(sphere(S), &Mat4::translate(&v(5 * S, 0, 0))).unwrap(),
        ],
    };
    assert_eq!(scene.sdf(&v(4 * S, 0, 0)), 0);
    assert_eq!(scene.sdf(&v(2 * S, 0, 0)), S);
    assert!(scene.is_valid());
}

#[test]
fn invalid_parameters_are_detected() {
    let bad = SceneObject::CSG {
        a: Box::new(sphere(S)),
        b: Box::new(sphere(S)),
        op: CSGOperator::UnionSmooth(0),
    };
    assert!(!bad.is_valid());
    assert!(!SceneObject::Scale { a: Box::new(sphere(S)), factor: 0 }.is_valid());
    assert!(!Scene { shapes: vec![sphere(-1)] }.is_valid());
    assert!(sphere(S).is_valid());
}

#[test]
fn normal_on_axis_points_outward() {
    let scene = unit_sphere_scene();
    assert_eq!(scene.sdf_normal(v(3 * S / 2, 0, 0)), v(S, 0, 0));
    assert_eq!(scene.sdf_normal(v(0, 0, -S - 100)), v(0, 0, -S));
}

#[test]
fn normal_off_axis_points_radially() {
    let scene = unit_sphere_scene();
    // a point at distance 1.25 along (0, 0.8, 0.6)
    let n = scene.sdf_normal(v(0, S, 3 * S / 4));
    assert!(n.x.abs() <= S / 50);
    assert!((n.y - 52429).abs() <= S / 50);
    assert!((n.z - 39322).abs() <= S / 50);
}

#[test]
fn ray_at_sphere_hits_and_ray_away_misses() {
    let scene = unit_sphere_scene();
    let orig = v(0, 0, -3 * S);
    assert_eq!(march(&scene, &orig, &v(0, 0, S)), RayOutcome::Hit(2 * S));
    assert_ne!(trace(&scene, &orig, &v(0, 0, S)), BACKGROUND);
    assert_eq!(march(&scene, &orig, &v(0, 0, -S)), RayOutcome::Missed);
    assert_eq!(trace(&scene, &orig, &v(0, 0, -S)), BACKGROUND);
}

#[test]
fn ray_passing_beside_the_scene_misses() {
    let scene = unit_sphere_scene();
    assert_eq!(trace(&scene, &v(0, 2 * S, -3 * S), &v(0, 0, S)), BACKGROUND);
    assert_eq!(march(&Scene { shapes: vec![] }, &v(0, 0, 0), &v(S, 0, 0)), RayOutcome::Missed);
}

#[test]
fn lit_side_is_brighter_than_far_side() {
    let scene = unit_sphere_scene();
    let toward_light = trace(&scene, &v(-S, 5 * S, -2 * S), &v(S / 5, -S, 2 * S / 5).normalize());
    let red = |c: u32| (c >> 16) & 0xFF;
    assert!(red(toward_light) > 200);
    let shadowed = trace(&scene, &v(S, -5 * S, 2 * S), &v(-S / 5, S, -2 * S / 5).normalize());
    assert!(red(shadowed) < red(toward_light));
}

#[test]
fn scanline_keeps_pixel_order() {
    let scene = unit_sphere_scene();
    let orig = v(0, 0, -3 * S);
    let dirs = vec![v(0, 0, S), v(0, 0, -S), v(0, S, 0), v(0, 0, S)];
    let row = trace_all(&scene, &orig, &dirs);
    assert_eq!(row.len(), 4);
    for (i, d) in dirs.iter().enumerate() {
        assert_eq!(row[i], trace(&scene, &orig, d));
    }
    assert_ne!(row[0], BACKGROUND);
    assert_eq!(row[1], BACKGROUND);
    assert_eq!(row[0], row[3]);
}
