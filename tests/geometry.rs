use raymarcher::fixed::SCALE;
use raymarcher::mat4::Mat4;
use raymarcher::vec3::Vec3;

const S: i64 = SCALE;

fn v(x: i64, y: i64, z: i64) -> Vec3 {
    Vec3::new(x, y, z)
}

#[test]
fn magnitude_and_normalize() {
    let a = v(3 * S, 4 * S, 0);
    assert_eq!(a.magnitude(), 5 * S);
    assert_eq!(a.normalize(), v(39321, 52428, 0));
    assert_eq!(v(0, 0, -2 * S).normalize(), v(0, 0, -S));
}

#[test]
fn vector_arithmetic() {
    let a = v(S, 2 * S, 3 * S);
    let b = v(4 * S, -5 * S, 6 * S);
    assert_eq!(a.dot(&b), 12 * S);
    assert_eq!(a.plus(&b), v(5 * S, -3 * S, 9 * S));
    assert_eq!(a.minus(&b), v(-3 * S, 7 * S, -3 * S));
    assert_eq!(a.neg(), v(-S, -2 * S, -3 * S));
    assert_eq!(a.times(S / 2), v(S / 2, S, 3 * S / 2));
    assert_eq!(a.div_by(2 * S), v(S / 2, S, 3 * S / 2));
}

#[test]
fn reflect_mirrors_about_normal() {
    assert_eq!(v(S, -S, 0).reflect(&v(0, S, 0)), v(S, S, 0));
}

#[test]
fn componentwise_operations() {
    let a = v(-S, S, 0);
    assert_eq!(a.max(0), v(0, S, 0));
    assert_eq!(a.min(0), v(-S, 0, 0));
    assert_eq!(a.abs(), v(S, S, 0));
    assert_eq!(a.apply(&|c: i64| c / 2), v(-S / 2, S / 2, 0));
}

#[test]
fn colors_pack_and_clamp() {
    assert_eq!(v(S, S / 2, S / 2).to_color(), 0xFFFF_7F7F);
    assert_eq!(v(-S, 2 * S, 0).to_color(), 0xFF00_FF00);
    assert_eq!(v(0, 0, 0).to_color(), 0xFF00_0000);
}

#[test]
fn translation_moves_points() {
    let m = Mat4::translate(&v(S, -2 * S, 3 * S));
    assert_eq!(m.transform_point(&v(S, S, S)), v(2 * S, -S, 4 * S));
    assert_eq!(m.get_row(3), [S, -2 * S, 3 * S, S]);
    assert_eq!(m.get_col(0), [S, 0, 0, S]);
    assert_eq!(m.get_elem(1, 3), -2 * S);
}

#[test]
fn set_elem_writes_one_entry() {
    let mut m = Mat4::identity();
    m.set_elem(2, 1, 7);
    assert_eq!(m.get_elem(2, 1), 7);
    assert_eq!(m.get_row(1), [0, S, 7, 0]);
}

#[test]
fn rotation_about_z() {
    // a quarter turn: cos = 0, sin = 1
    let m = Mat4::rotate_z(0, S);
    assert_eq!(m.transform_point(&v(S, 0, 0)), v(0, -S, 0));
}

#[test]
fn composed_rotation_of_zero_angles_is_identity() {
    let m = Mat4::rotate(&v(S, S, S), &v(0, 0, 0));
    assert_eq!(m.data, Mat4::identity().data);
}

#[test]
fn product_with_identity() {
    let r = Mat4::rotate_x(0, S);
    assert_eq!(Mat4::identity().mul_mat(&r).data, r.data);
    assert_eq!(r.mul_mat(&Mat4::identity()).data, r.data);
}

#[test]
fn inverse_of_translation_and_scale() {
    let t = Mat4::translate(&v(3 * S, -S, S / 2)).invert().unwrap();
    assert_eq!(t.data, Mat4::translate(&v(-3 * S, S, -S / 2)).data);
    let s = Mat4::scale(2 * S).invert().unwrap();
    assert_eq!(s.data, Mat4::scale(S / 2).data);
    assert_eq!(Mat4::identity().determinant(), (S as i128).pow(4));
}

#[test]
fn singular_matrix_has_no_inverse() {
    assert!(Mat4::empty().invert().is_none());
    assert!(Mat4::scale(0).invert().is_none());
}
