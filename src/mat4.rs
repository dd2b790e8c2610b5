//! 4x4 homogeneous transforms with fixed-point entries, stored row-major.
use vstd::prelude::*;
use crate::fixed::{sat, floor_div, saturate, div_floor, SCALE, LIMIT};
use crate::math::lemma_mul_bounded;
use crate::vec3::{Vec3, vec3};

verus! {

/// The largest magnitude a matrix entry may hold.
pub const MAT_LIMIT: i64 = 0x100_0000;

pub open spec fn in_mat_range(v: int) -> bool {
    -MAT_LIMIT <= v <= MAT_LIMIT
}

/// Clamps an exact integer result into the matrix entry range.
pub open spec fn sat_mat(v: int) -> int {
    if v > MAT_LIMIT {
        MAT_LIMIT as int
    } else if v < -MAT_LIMIT {
        -MAT_LIMIT
    } else {
        v
    }
}

/// The `i`-th index that remains once index `k` is struck out of `0..4`.
pub open spec fn skip(k: int, i: int) -> int {
    if i < k {
        i
    } else {
        i + 1
    }
}

/// Entry (`r`, `c`) of a row-major 4x4 matrix.
pub open spec fn entry(m: Seq<int>, r: int, c: int) -> int {
    m[r * 4 + c]
}

/// The first `k` terms of the sum behind entry (`r`, `c`) of `a * b`.
pub open spec fn dot_prefix(a: Seq<int>, b: Seq<int>, r: int, c: int, k: int) -> int
    decreases k,
{
    if k <= 0 {
        0
    } else {
        dot_prefix(a, b, r, c, k - 1) + entry(a, r, k - 1) * entry(b, k - 1, c)
    }
}

/// The fixed-point product `a * b` of two row-major 4x4 matrices.
pub open spec fn mat_product(a: Seq<int>, b: Seq<int>) -> Seq<int> {
    Seq::new(16, |i: int| sat_mat(dot_prefix(a, b, i / 4, i % 4, 4) / (SCALE as int)))
}

pub open spec fn identity_seq() -> Seq<int> {
    seq![
        SCALE as int, 0, 0, 0,
        0, SCALE as int, 0, 0,
        0, 0, SCALE as int, 0,
        0, 0, 0, SCALE as int,
    ]
}

pub open spec fn translate_seq(x: int, y: int, z: int) -> Seq<int> {
    seq![
        SCALE as int, 0, 0, 0,
        0, SCALE as int, 0, 0,
        0, 0, SCALE as int, 0,
        x, y, z, SCALE as int,
    ]
}

pub open spec fn rotate_x_seq(cos: int, sin: int) -> Seq<int> {
    seq![
        SCALE as int, 0, 0, 0,
        0, cos, -sin, 0,
        0, sin, cos, 0,
        0, 0, 0, SCALE as int,
    ]
}

pub open spec fn rotate_y_seq(cos: int, sin: int) -> Seq<int> {
    seq![
        cos, 0, sin, 0,
        0, SCALE as int, 0, 0,
        -sin, 0, cos, 0,
        0, 0, 0, SCALE as int,
    ]
}

pub open spec fn rotate_z_seq(cos: int, sin: int) -> Seq<int> {
    seq![
        cos, -sin, 0, 0,
        sin, cos, 0, 0,
        0, 0, SCALE as int, 0,
        0, 0, 0, SCALE as int,
    ]
}

pub open spec fn scale_seq(v: int) -> Seq<int> {
    seq![
        v, 0, 0, 0,
        0, v, 0, 0,
        0, 0, v, 0,
        0, 0, 0, SCALE as int,
    ]
}

/// Coordinate `i` of the point `(v, 1)` carried through the transform `m`.
pub open spec fn apply_at(m: Seq<int>, v: Vec3, i: int) -> int {
    sat(
        (entry(m, 0, i) * v.x + entry(m, 1, i) * v.y + entry(m, 2, i) * v.z + entry(m, 3, i)
            * SCALE) / (SCALE as int),
    )
}

/// The point `v` carried through the transform `m`; the `w` column is not read.
pub open spec fn mat_apply(m: Seq<int>, v: Vec3) -> Vec3 {
    vec3(apply_at(m, v, 0), apply_at(m, v, 1), apply_at(m, v, 2))
}

/// Entry (`i`, `j`) of the 3x3 matrix left once row `r` and column `c` are struck out.
pub open spec fn sub_at(m: Seq<int>, r: int, c: int, i: int, j: int) -> int {
    entry(m, skip(r, i), skip(c, j))
}

pub open spec fn det3(a: int, b: int, c: int, d: int, e: int, f: int, g: int, h: int, i: int) -> int {
    a * (e * i - f * h) - b * (d * i - f * g) + c * (d * h - e * g)
}

/// The determinant of the 3x3 matrix left once row `r` and column `c` are struck out.
pub open spec fn mat_minor(m: Seq<int>, r: int, c: int) -> int {
    det3(
        sub_at(m, r, c, 0, 0), sub_at(m, r, c, 0, 1), sub_at(m, r, c, 0, 2),
        sub_at(m, r, c, 1, 0), sub_at(m, r, c, 1, 1), sub_at(m, r, c, 1, 2),
        sub_at(m, r, c, 2, 0), sub_at(m, r, c, 2, 1), sub_at(m, r, c, 2, 2),
    )
}

pub open spec fn mat_cofactor(m: Seq<int>, r: int, c: int) -> int {
    if (r + c) % 2 == 0 {
        mat_minor(m, r, c)
    } else {
        -mat_minor(m, r, c)
    }
}

/// The determinant of the integer entries, expanded along the first row.
pub open spec fn mat_det(m: Seq<int>) -> int {
    entry(m, 0, 0) * mat_cofactor(m, 0, 0) + entry(m, 0, 1) * mat_cofactor(m, 0, 1) + entry(m, 0, 2)
        * mat_cofactor(m, 0, 2) + entry(m, 0, 3) * mat_cofactor(m, 0, 3)
}

/// The first `c` terms of the expansion of the determinant along the first row.
pub open spec fn det_prefix(m: Seq<int>, c: int) -> int
    decreases c,
{
    if c <= 0 {
        0
    } else {
        det_prefix(m, c - 1) + entry(m, 0, c - 1) * mat_cofactor(m, 0, c - 1)
    }
}

/// The fixed-point inverse: the adjugate over the determinant, each entry
/// rounded down and saturated.
pub open spec fn mat_inverse(m: Seq<int>) -> Seq<int> {
    Seq::new(
        16,
        |i: int| sat_mat(floor_div(mat_cofactor(m, i % 4, i / 4) * SCALE * SCALE, mat_det(m))),
    )
}

/// A transform; entry (row `r`, column `c`) is `data[r * 4 + c]`. Points are
/// row vectors `(x, y, z, 1)` multiplied on the left, so translation sits in the
/// last row.
#[derive(Clone, Copy, Debug)]
pub struct Mat4 {
    pub data: [i64; 16],
}

impl View for Mat4 {
    type V = Seq<int>;

    open spec fn view(&self) -> Seq<int> {
        self.data@.map_values(|e: i64| e as int)
    }
}

impl Mat4 {
    /// Every entry is within the matrix range.
    pub open spec fn wf(&self) -> bool {
        forall|i: int| 0 <= i < 16 ==> in_mat_range(#[trigger] self.data[i] as int)
    }

    pub open spec fn at(&self, r: int, c: int) -> int {
        entry(self@, r, c)
    }

    pub fn new(data: [i64; 16]) -> (r: Mat4)
        requires
            forall|i: int| 0 <= i < 16 ==> in_mat_range(#[trigger] data[i] as int),
        ensures
            r.data == data,
            r.wf(),
    {
        Mat4 { data }
    }

    pub fn empty() -> (r: Mat4)
        ensures
            forall|i: int| 0 <= i < 16 ==> #[trigger] r.data[i] == 0,
            r.wf(),
    {
        Mat4 { data: [0; 16] }
    }

    pub fn identity() -> (r: Mat4)
        ensures
            r@ == identity_seq(),
            r.wf(),
    {
        let r = Mat4 {
            data: [
                SCALE, 0, 0, 0,
                0, SCALE, 0, 0,
                0, 0, SCALE, 0,
                0, 0, 0, SCALE,
            ],
        };
        assert(r@ =~= identity_seq());
        r
    }

    /// Moves points by `v`.
    pub fn translate(v: &Vec3) -> (r: Mat4)
        requires
            in_mat_range(v.x as int),
            in_mat_range(v.y as int),
            in_mat_range(v.z as int),
        ensures
            r@ == translate_seq(v.x as int, v.y as int, v.z as int),
            r.wf(),
    {
        let r = Mat4 {
            data: [
                SCALE, 0, 0, 0,
                0, SCALE, 0, 0,
                0, 0, SCALE, 0,
                v.x, v.y, v.z, SCALE,
            ],
        };
        assert(r@ =~= translate_seq(v.x as int, v.y as int, v.z as int));
        r
    }

    /// Rotation about the X axis by the angle whose cosine and sine are `cos` and `sin`.
    pub fn rotate_x(cos: i64, sin: i64) -> (r: Mat4)
        requires
            -SCALE <= cos <= SCALE,
            -SCALE <= sin <= SCALE,
        ensures
            r@ == rotate_x_seq(cos as int, sin as int),
            r.wf(),
    {
        let r = Mat4 {
            data: [
                SCALE, 0, 0, 0,
                0, cos, -sin, 0,
                0, sin, cos, 0,
                0, 0, 0, SCALE,
            ],
        };
        assert(r@ =~= rotate_x_seq(cos as int, sin as int));
        r
    }

    /// Rotation about the Y axis by the angle whose cosine and sine are `cos` and `sin`.
    pub fn rotate_y(cos: i64, sin: i64) -> (r: Mat4)
        requires
            -SCALE <= cos <= SCALE,
            -SCALE <= sin <= SCALE,
        ensures
            r@ == rotate_y_seq(cos as int, sin as int),
            r.wf(),
    {
        let r = Mat4 {
            data: [
                cos, 0, sin, 0,
                0, SCALE, 0, 0,
                -sin, 0, cos, 0,
                0, 0, 0, SCALE,
            ],
        };
        assert(r@ =~= rotate_y_seq(cos as int, sin as int));
        r
    }

    /// Rotation about the Z axis by the angle whose cosine and sine are `cos` and `sin`.
    pub fn rotate_z(cos: i64, sin: i64) -> (r: Mat4)
        requires
            -SCALE <= cos <= SCALE,
            -SCALE <= sin <= SCALE,
        ensures
            r@ == rotate_z_seq(cos as int, sin as int),
            r.wf(),
    {
        let r = Mat4 {
            data: [
                cos, -sin, 0, 0,
                sin, cos, 0, 0,
                0, 0, SCALE, 0,
                0, 0, 0, SCALE,
            ],
        };
        assert(r@ =~= rotate_z_seq(cos as int, sin as int));
        r
    }

    /// The composed rotation `Rx * Ry * Rz`; `cos` and `sin` hold, per axis, the
    /// cosine and sine of the angle about that axis.
    pub fn rotate(cos: &Vec3, sin: &Vec3) -> (r: Mat4)
        requires
            -SCALE <= cos.x <= SCALE,
            -SCALE <= cos.y <= SCALE,
            -SCALE <= cos.z <= SCALE,
            -SCALE <= sin.x <= SCALE,
            -SCALE <= sin.y <= SCALE,
            -SCALE <= sin.z <= SCALE,
        ensures
            r.wf(),
            r@ == mat_product(
                mat_product(rotate_x_seq(cos.x as int, sin.x as int), rotate_y_seq(cos.y as int, sin.y as int)),
                rotate_z_seq(cos.z as int, sin.z as int),
            ),
    {
        let rx = Mat4::rotate_x(cos.x, sin.x);
        let ry = Mat4::rotate_y(cos.y, sin.y);
        let rz = Mat4::rotate_z(cos.z, sin.z);
        let rxy = rx.mul_mat(&ry);
        let r = rxy.mul_mat(&rz);
        r
    }

    /// Uniform scale by the fixed-point factor `v`.
    pub fn scale(v: i64) -> (r: Mat4)
        requires
            in_mat_range(v as int),
        ensures
            r@ == scale_seq(v as int),
            r.wf(),
    {
        let r = Mat4 {
            data: [
                v, 0, 0, 0,
                0, v, 0, 0,
                0, 0, v, 0,
                0, 0, 0, SCALE,
            ],
        };
        assert(r@ =~= scale_seq(v as int));
        r
    }

    /// The entry in column `x` of row `y`.
    pub fn get_elem(&self, x: usize, y: usize) -> (r: i64)
        requires
            x < 4,
            y < 4,
        ensures
            r == self.at(y as int, x as int),
    {
        self.data[y * 4 + x]
    }

    /// Replaces the entry in column `x` of row `y`.
    pub fn set_elem(&mut self, x: usize, y: usize, val: i64)
        requires
            x < 4,
            y < 4,
        ensures
            final(self).data@ == old(self).data@.update(y * 4 + x, val),
    {
        self.data[y * 4 + x] = val;
    }

    /// Row `n`, left to right.
    pub fn get_row(&self, n: usize) -> (r: [i64; 4])
        requires
            n < 4,
        ensures
            forall|i: int| 0 <= i < 4 ==> #[trigger] r[i] == self.at(n as int, i),
    {
        let mut r = [0i64; 4];
        let mut i: usize = 0;
        while i < 4
            invariant
                n < 4,
                i <= 4,
                forall|j: int| 0 <= j < i ==> #[trigger] r[j] == self.at(n as int, j),
            decreases 4 - i,
        {
            r[i] = self.data[n * 4 + i];
            i += 1;
        }
        r
    }

    /// Column `n`, top to bottom.
    pub fn get_col(&self, n: usize) -> (r: [i64; 4])
        requires
            n < 4,
        ensures
            forall|i: int| 0 <= i < 4 ==> #[trigger] r[i] == self.at(i, n as int),
    {
        let mut r = [0i64; 4];
        let mut i: usize = 0;
        while i < 4
            invariant
                n < 4,
                i <= 4,
                forall|j: int| 0 <= j < i ==> #[trigger] r[j] == self.at(j, n as int),
            decreases 4 - i,
        {
            r[i] = self.data[i * 4 + n];
            i += 1;
        }
        r
    }

    fn product_entry(&self, other: &Mat4, r: usize, c: usize) -> (e: i64)
        requires
            self.wf(),
            other.wf(),
            r < 4,
            c < 4,
        ensures
            e == mat_product(self@, other@)[r * 4 + c],
            in_mat_range(e as int),
    {
        let row = self.get_row(r);
        let col = other.get_col(c);
        let mut sum: i128 = 0;
        let mut k: usize = 0;
        while k < 4
            invariant
                self.wf(),
                other.wf(),
                r < 4,
                c < 4,
                k <= 4,
                forall|i: int| 0 <= i < 4 ==> #[trigger] row[i] == self.at(r as int, i),
                forall|i: int| 0 <= i < 4 ==> #[trigger] col[i] == other.at(i, c as int),
                sum == dot_prefix(self@, other@, r as int, c as int, k as int),
                -k * 0x1_0000_0000_0000 <= sum <= k * 0x1_0000_0000_0000,
            decreases 4 - k,
        {
            proof {
                assert(in_mat_range(self.data[r * 4 + k] as int));
                assert(in_mat_range(other.data[k * 4 + c] as int));
                lemma_mul_bounded(
                    row[k as int] as int,
                    col[k as int] as int,
                    MAT_LIMIT as int,
                    MAT_LIMIT as int,
                );
            }
            sum = sum + row[k] as i128 * col[k] as i128;
            k += 1;
        }
        let q = div_floor(sum, SCALE as i128);
        if q > MAT_LIMIT as i128 {
            MAT_LIMIT
        } else if q < -(MAT_LIMIT as i128) {
            -MAT_LIMIT
        } else {
            q as i64
        }
    }

    /// The fixed-point product `self * other`: applying it transforms a point
    /// by `self` first, then by `other`.
    pub fn mul_mat(&self, other: &Mat4) -> (r: Mat4)
        requires
            self.wf(),
            other.wf(),
        ensures
            r@ == mat_product(self@, other@),
            r.wf(),
    {
        let mut data = [0i64; 16];
        let mut i: usize = 0;
        while i < 16
            invariant
                self.wf(),
                other.wf(),
                i <= 16,
                forall|j: int| 0 <= j < i ==> #[trigger] data[j] == mat_product(self@, other@)[j],
                forall|j: int| 0 <= j < i ==> in_mat_range(#[trigger] data[j] as int),
            decreases 16 - i,
        {
            data[i] = self.product_entry(other, i / 4, i % 4);
            i += 1;
        }
        let r = Mat4 { data };
        assert(r@ =~= mat_product(self@, other@));
        r
    }

    /// Carries the point `(v, 1)` through the transform.
    pub fn transform_point(&self, v: &Vec3) -> (r: Vec3)
        requires
            self.wf(),
            v.wf(),
        ensures
            r == mat_apply(self@, *v),
            r.wf(),
    {
        Vec3 { x: self.apply_coord(v, 0), y: self.apply_coord(v, 1), z: self.apply_coord(v, 2) }
    }

    fn apply_coord(&self, v: &Vec3, i: usize) -> (r: i64)
        requires
            self.wf(),
            v.wf(),
            i < 3,
        ensures
            r == apply_at(self@, *v, i as int),
    {
        let m0 = self.data[i] as i128;
        let m1 = self.data[4 + i] as i128;
        let m2 = self.data[8 + i] as i128;
        let m3 = self.data[12 + i] as i128;
        proof {
            assert(in_mat_range(self.data[i as int] as int));
            assert(in_mat_range(self.data[4 + i] as int));
            assert(in_mat_range(self.data[8 + i] as int));
            assert(in_mat_range(self.data[12 + i] as int));
            lemma_mul_bounded(m0 as int, v.x as int, MAT_LIMIT as int, LIMIT as int);
            lemma_mul_bounded(m1 as int, v.y as int, MAT_LIMIT as int, LIMIT as int);
            lemma_mul_bounded(m2 as int, v.z as int, MAT_LIMIT as int, LIMIT as int);
            lemma_mul_bounded(m3 as int, SCALE as int, MAT_LIMIT as int, SCALE as int);
        }
        let sum: i128 = m0 * v.x as i128 + m1 * v.y as i128 + m2 * v.z as i128 + m3 * SCALE as i128;
        saturate(div_floor(sum, SCALE as i128))
    }

    /// The minor of entry (`r`, `c`), exactly.
    fn minor(&self, r: usize, c: usize) -> (m: i128)
        requires
            self.wf(),
            r < 4,
            c < 4,
        ensures
            m == mat_minor(self@, r as int, c as int),
            -0x800_0000_0000_0000_0000 <= m <= 0x800_0000_0000_0000_0000,
    {
        let r0: usize = if r == 0 { 1 } else { 0 };
        let r1: usize = if r <= 1 { 2 } else { 1 };
        let r2: usize = if r <= 2 { 3 } else { 2 };
        let c0: usize = if c == 0 { 1 } else { 0 };
        let c1: usize = if c <= 1 { 2 } else { 1 };
        let c2: usize = if c <= 2 { 3 } else { 2 };
        let a = self.data[r0 * 4 + c0] as i128;
        let b = self.data[r0 * 4 + c1] as i128;
        let cc = self.data[r0 * 4 + c2] as i128;
        let d = self.data[r1 * 4 + c0] as i128;
        let e = self.data[r1 * 4 + c1] as i128;
        let f = self.data[r1 * 4 + c2] as i128;
        let g = self.data[r2 * 4 + c0] as i128;
        let h = self.data[r2 * 4 + c1] as i128;
        let k = self.data[r2 * 4 + c2] as i128;
        proof {
            let ml = MAT_LIMIT as int;
            assert(in_mat_range(a as int) && in_mat_range(b as int) && in_mat_range(cc as int));
            assert(in_mat_range(d as int) && in_mat_range(e as int) && in_mat_range(f as int));
            assert(in_mat_range(g as int) && in_mat_range(h as int) && in_mat_range(k as int));
            lemma_mul_bounded(e as int, k as int, ml, ml);
            lemma_mul_bounded(f as int, h as int, ml, ml);
            lemma_mul_bounded(d as int, k as int, ml, ml);
            lemma_mul_bounded(f as int, g as int, ml, ml);
            lemma_mul_bounded(d as int, h as int, ml, ml);
            lemma_mul_bounded(e as int, g as int, ml, ml);
            lemma_mul_bounded(a as int, e * k - f * h, ml, 2 * ml * ml);
            lemma_mul_bounded(b as int, d * k - f * g, ml, 2 * ml * ml);
            lemma_mul_bounded(cc as int, d * h - e * g, ml, 2 * ml * ml);
        }
        a * (e * k - f * h) - b * (d * k - f * g) + cc * (d * h - e * g)
    }

    fn cofactor(&self, r: usize, c: usize) -> (m: i128)
        requires
            self.wf(),
            r < 4,
            c < 4,
        ensures
            m == mat_cofactor(self@, r as int, c as int),
            -0x800_0000_0000_0000_0000 <= m <= 0x800_0000_0000_0000_0000,
    {
        let m = self.minor(r, c);
        if (r + c) % 2 == 0 {
            m
        } else {
            -m
        }
    }

    /// The determinant of the integer entries.
    pub fn determinant(&self) -> (d: i128)
        requires
            self.wf(),
        ensures
            d == mat_det(self@),
            -0x20_0000_0000_0000_0000_0000_0000 <= d <= 0x20_0000_0000_0000_0000_0000_0000,
    {
        let mut d: i128 = 0;
        let mut c: usize = 0;
        while c < 4
            invariant
                self.wf(),
                c <= 4,
                d == det_prefix(self@, c as int),
                -c * 0x8_0000_0000_0000_0000_0000_0000 <= d <= c * 0x8_0000_0000_0000_0000_0000_0000,
            decreases 4 - c,
        {
            let cof = self.cofactor(0, c);
            let e = self.data[c] as i128;
            proof {
                assert(in_mat_range(self.data[c as int] as int));
                lemma_mul_bounded(e as int, cof as int, MAT_LIMIT as int, 0x800_0000_0000_0000_0000);
            }
            d = d + e * cof;
            c += 1;
        }
        proof {
            reveal_with_fuel(det_prefix, 5);
        }
        d
    }

    /// The inverse transform, or `None` when the matrix is singular.
    pub fn invert(&self) -> (r: Option<Mat4>)
        requires
            self.wf(),
        ensures
            r is None <==> mat_det(self@) == 0,
            r matches Some(m) ==> m@ == mat_inverse(self@) && m.wf(),
    {
        let det = self.determinant();
        if det == 0 {
            return None;
        }
        let mut data = [0i64; 16];
        let mut i: usize = 0;
        while i < 16
            invariant
                self.wf(),
                det == mat_det(self@),
                det != 0,
                -0x20_0000_0000_0000_0000_0000_0000 <= det <= 0x20_0000_0000_0000_0000_0000_0000,
                i <= 16,
                forall|j: int| 0 <= j < i ==> #[trigger] data[j] == mat_inverse(self@)[j],
                forall|j: int| 0 <= j < i ==> in_mat_range(#[trigger] data[j] as int),
            decreases 16 - i,
        {
            let cof = self.cofactor(i % 4, i / 4);
            proof {
                lemma_mul_bounded(cof as int, SCALE * SCALE, 0x800_0000_0000_0000_0000, SCALE * SCALE);
            }
            let n: i128 = cof * (SCALE as i128 * SCALE as i128);
            assert(n == mat_cofactor(self@, (i % 4) as int, (i / 4) as int) * SCALE * SCALE);
            let q: i128 = if det > 0 {
                div_floor(n, det)
            } else {
                div_floor(-n, -det)
            };
            data[i] = if q > MAT_LIMIT as i128 {
                MAT_LIMIT
            } else if q < -(MAT_LIMIT as i128) {
                -MAT_LIMIT
            } else {
                q as i64
            };
            i += 1;
        }
        let m = Mat4 { data };
        assert(m@ =~= mat_inverse(self@));
        Some(m)
    }
}

proof fn lemma_translate_entries(x: int, y: int, z: int)
    ensures
        ({
            let m = translate_seq(x, y, z);
            &&& m.len() == 16
            &&& m[0] == SCALE && m[1] == 0 && m[2] == 0 && m[3] == 0
            &&& m[4] == 0 && m[5] == SCALE && m[6] == 0 && m[7] == 0
            &&& m[8] == 0 && m[9] == 0 && m[10] == SCALE && m[11] == 0
            &&& m[12] == x && m[13] == y && m[14] == z && m[15] == SCALE
        }),
{
}

/// The inverse of a translation is the opposite translation.
pub proof fn lemma_translate_inverse(x: int, y: int, z: int)
    requires
        in_mat_range(x),
        in_mat_range(y),
        in_mat_range(z),
    ensures
        mat_inverse(translate_seq(x, y, z)) == translate_seq(-x, -y, -z),
{
    let m = translate_seq(x, y, z);
    lemma_translate_entries(x, y, z);
    lemma_translate_entries(-x, -y, -z);
    // Each minor, written out over the entries (zeros included), then its value:
    // S^3 on the diagonal, -S^2 times the offset in the last row, zero elsewhere.
    assert(mat_minor(m, 0, 0) == 65536 * (65536 * 65536 - 0 * z) - 0 * (0 * 65536 - 0 * y) + 0 * (0 * z - 65536 * y));
    assert((65536 * (65536 * 65536 - 0 * z) - 0 * (0 * 65536 - 0 * y) + 0 * (0 * z - 65536 * y)) == 65536 * 65536 * 65536) by (nonlinear_arith);
    assert(mat_minor(m, 1, 0) == 0 * (65536 * 65536 - 0 * z) - 0 * (0 * 65536 - 0 * y) + 0 * (0 * z - 65536 * y));
    assert(-(0 * (65536 * 65536 - 0 * z) - 0 * (0 * 65536 - 0 * y) + 0 * (0 * z - 65536 * y)) == 0) by (nonlinear_arith);
    assert(mat_minor(m, 2, 0) == 0 * (0 * 65536 - 0 * z) - 0 * (65536 * 65536 - 0 * y) + 0 * (65536 * z - 0 * y));
    assert((0 * (0 * 65536 - 0 * z) - 0 * (65536 * 65536 - 0 * y) + 0 * (65536 * z - 0 * y)) == 0) by (nonlinear_arith);
    assert(mat_minor(m, 3, 0) == 0 * (0 * 0 - 0 * 65536) - 0 * (65536 * 0 - 0 * 0) + 0 * (65536 * 65536 - 0 * 0));
    assert(-(0 * (0 * 0 - 0 * 65536) - 0 * (65536 * 0 - 0 * 0) + 0 * (65536 * 65536 - 0 * 0)) == 0) by (nonlinear_arith);
    assert(mat_minor(m, 0, 1) == 0 * (65536 * 65536 - 0 * z) - 0 * (0 * 65536 - 0 * x) + 0 * (0 * z - 65536 * x));
    assert(-(0 * (65536 * 65536 - 0 * z) - 0 * (0 * 65536 - 0 * x) + 0 * (0 * z - 65536 * x)) == 0) by (nonlinear_arith);
    assert(mat_minor(m, 1, 1) == 65536 * (65536 * 65536 - 0 * z) - 0 * (0 * 65536 - 0 * x) + 0 * (0 * z - 65536 * x));
    assert((65536 * (65536 * 65536 - 0 * z) - 0 * (0 * 65536 - 0 * x) + 0 * (0 * z - 65536 * x)) == 65536 * 65536 * 65536) by (nonlinear_arith);
    assert(mat_minor(m, 2, 1) == 65536 * (0 * 65536 - 0 * z) - 0 * (0 * 65536 - 0 * x) + 0 * (0 * z - 0 * x));
    assert(-(65536 * (0 * 65536 - 0 * z) - 0 * (0 * 65536 - 0 * x) + 0 * (0 * z - 0 * x)) == 0) by (nonlinear_arith);
    assert(mat_minor(m, 3, 1) == 65536 * (0 * 0 - 0 * 65536) - 0 * (0 * 0 - 0 * 0) + 0 * (0 * 65536 - 0 * 0));
    assert((65536 * (0 * 0 - 0 * 65536) - 0 * (0 * 0 - 0 * 0) + 0 * (0 * 65536 - 0 * 0)) == 0) by (nonlinear_arith);
    assert(mat_minor(m, 0, 2) == 0 * (0 * 65536 - 0 * y) - 65536 * (0 * 65536 - 0 * x) + 0 * (0 * y - 0 * x));
    assert((0 * (0 * 65536 - 0 * y) - 65536 * (0 * 65536 - 0 * x) + 0 * (0 * y - 0 * x)) == 0) by (nonlinear_arith);
    assert(mat_minor(m, 1, 2) == 65536 * (0 * 65536 - 0 * y) - 0 * (0 * 65536 - 0 * x) + 0 * (0 * y - 0 * x));
    assert(-(65536 * (0 * 65536 - 0 * y) - 0 * (0 * 65536 - 0 * x) + 0 * (0 * y - 0 * x)) == 0) by (nonlinear_arith);
    assert(mat_minor(m, 2, 2) == 65536 * (65536 * 65536 - 0 * y) - 0 * (0 * 65536 - 0 * x) + 0 * (0 * y - 65536 * x));
    assert((65536 * (65536 * 65536 - 0 * y) - 0 * (0 * 65536 - 0 * x) + 0 * (0 * y - 65536 * x)) == 65536 * 65536 * 65536) by (nonlinear_arith);
    assert(mat_minor(m, 3, 2) == 65536 * (65536 * 0 - 0 * 0) - 0 * (0 * 0 - 0 * 0) + 0 * (0 * 0 - 65536 * 0));
    assert(-(65536 * (65536 * 0 - 0 * 0) - 0 * (0 * 0 - 0 * 0) + 0 * (0 * 0 - 65536 * 0)) == 0) by (nonlinear_arith);
    assert(mat_minor(m, 0, 3) == 0 * (0 * z - 65536 * y) - 65536 * (0 * z - 65536 * x) + 0 * (0 * y - 0 * x));
    assert(-(0 * (0 * z - 65536 * y) - 65536 * (0 * z - 65536 * x) + 0 * (0 * y - 0 * x)) == -65536 * 65536 * x) by (nonlinear_arith);
    assert(mat_minor(m, 1, 3) == 65536 * (0 * z - 65536 * y) - 0 * (0 * z - 65536 * x) + 0 * (0 * y - 0 * x));
    assert((65536 * (0 * z - 65536 * y) - 0 * (0 * z - 65536 * x) + 0 * (0 * y - 0 * x)) == -65536 * 65536 * y) by (nonlinear_arith);
    assert(mat_minor(m, 2, 3) == 65536 * (65536 * z - 0 * y) - 0 * (0 * z - 0 * x) + 0 * (0 * y - 65536 * x));
    assert(-(65536 * (65536 * z - 0 * y) - 0 * (0 * z - 0 * x) + 0 * (0 * y - 65536 * x)) == -65536 * 65536 * z) by (nonlinear_arith);
    assert(mat_minor(m, 3, 3) == 65536 * (65536 * 65536 - 0 * 0) - 0 * (0 * 65536 - 0 * 0) + 0 * (0 * 0 - 65536 * 0));
    assert((65536 * (65536 * 65536 - 0 * 0) - 0 * (0 * 65536 - 0 * 0) + 0 * (0 * 0 - 65536 * 0)) == 65536 * 65536 * 65536) by (nonlinear_arith);
    let d = 0x1_0000_0000_0000_0000int;
    assert(mat_det(m) == 65536 * (65536 * 65536 * 65536));
    assert(mat_det(m) == d);
    let inv = mat_inverse(m);
    let t = translate_seq(-x, -y, -z);
    assert(inv[0] == t[0]) by {
        let c = mat_cofactor(m, 0, 0);
        assert(c * SCALE * SCALE == d * (65536)) by (nonlinear_arith)
            requires
                c == (65536) * (65536 * 65536),
                SCALE == 65536,
                d == 0x1_0000_0000_0000_0000int,
        ;
        vstd::arithmetic::div_mod::lemma_div_multiples_vanish(65536, d);
    }
    assert(inv[1] == t[1]) by {
        let c = mat_cofactor(m, 1, 0);
        assert(c * SCALE * SCALE == d * (0)) by (nonlinear_arith)
            requires
                c == (0) * (65536 * 65536),
                SCALE == 65536,
                d == 0x1_0000_0000_0000_0000int,
        ;
        vstd::arithmetic::div_mod::lemma_div_multiples_vanish(0, d);
    }
    assert(inv[2] == t[2]) by {
        let c = mat_cofactor(m, 2, 0);
        assert(c * SCALE * SCALE == d * (0)) by (nonlinear_arith)
            requires
                c == (0) * (65536 * 65536),
                SCALE == 65536,
                d == 0x1_0000_0000_0000_0000int,
        ;
        vstd::arithmetic::div_mod::lemma_div_multiples_vanish(0, d);
    }
    assert(inv[3] == t[3]) by {
        let c = mat_cofactor(m, 3, 0);
        assert(c * SCALE * SCALE == d * (0)) by (nonlinear_arith)
            requires
                c == (0) * (65536 * 65536),
                SCALE == 65536,
                d == 0x1_0000_0000_0000_0000int,
        ;
        vstd::arithmetic::div_mod::lemma_div_multiples_vanish(0, d);
    }
    assert(inv[4] == t[4]) by {
        let c = mat_cofactor(m, 0, 1);
        assert(c * SCALE * SCALE == d * (0)) by (nonlinear_arith)
            requires
                c == (0) * (65536 * 65536),
                SCALE == 65536,
                d == 0x1_0000_0000_0000_0000int,
        ;
        vstd::arithmetic::div_mod::lemma_div_multiples_vanish(0, d);
    }
    assert(inv[5] == t[5]) by {
        let c = mat_cofactor(m, 1, 1);
        assert(c * SCALE * SCALE == d * (65536)) by (nonlinear_arith)
            requires
                c == (65536) * (65536 * 65536),
                SCALE == 65536,
                d == 0x1_0000_0000_0000_0000int,
        ;
        vstd::arithmetic::div_mod::lemma_div_multiples_vanish(65536, d);
    }
    assert(inv[6] == t[6]) by {
        let c = mat_cofactor(m, 2, 1);
        assert(c * SCALE * SCALE == d * (0)) by (nonlinear_arith)
            requires
                c == (0) * (65536 * 65536),
                SCALE == 65536,
                d == 0x1_0000_0000_0000_0000int,
        ;
        vstd::arithmetic::div_mod::lemma_div_multiples_vanish(0, d);
    }
    assert(inv[7] == t[7]) by {
        let c = mat_cofactor(m, 3, 1);
        assert(c * SCALE * SCALE == d * (0)) by (nonlinear_arith)
            requires
                c == (0) * (65536 * 65536),
                SCALE == 65536,
                d == 0x1_0000_0000_0000_0000int,
        ;
        vstd::arithmetic::div_mod::lemma_div_multiples_vanish(0, d);
    }
    assert(inv[8] == t[8]) by {
        let c = mat_cofactor(m, 0, 2);
        assert(c * SCALE * SCALE == d * (0)) by (nonlinear_arith)
            requires
                c == (0) * (65536 * 65536),
                SCALE == 65536,
                d == 0x1_0000_0000_0000_0000int,
        ;
        vstd::arithmetic::div_mod::lemma_div_multiples_vanish(0, d);
    }
    assert(inv[9] == t[9]) by {
        let c = mat_cofactor(m, 1, 2);
        assert(c * SCALE * SCALE == d * (0)) by (nonlinear_arith)
            requires
                c == (0) * (65536 * 65536),
                SCALE == 65536,
                d == 0x1_0000_0000_0000_0000int,
        ;
        vstd::arithmetic::div_mod::lemma_div_multiples_vanish(0, d);
    }
    assert(inv[10] == t[10]) by {
        let c = mat_cofactor(m, 2, 2);
        assert(c * SCALE * SCALE == d * (65536)) by (nonlinear_arith)
            requires
                c == (65536) * (65536 * 65536),
                SCALE == 65536,
                d == 0x1_0000_0000_0000_0000int,
        ;
        vstd::arithmetic::div_mod::lemma_div_multiples_vanish(65536, d);
    }
    assert(inv[11] == t[11]) by {
        let c = mat_cofactor(m, 3, 2);
        assert(c * SCALE * SCALE == d * (0)) by (nonlinear_arith)
            requires
                c == (0) * (65536 * 65536),
                SCALE == 65536,
                d == 0x1_0000_0000_0000_0000int,
        ;
        vstd::arithmetic::div_mod::lemma_div_multiples_vanish(0, d);
    }
    assert(inv[12] == t[12]) by {
        let c = mat_cofactor(m, 0, 3);
        assert(c * SCALE * SCALE == d * (-x)) by (nonlinear_arith)
            requires
                c == (-x) * (65536 * 65536),
                SCALE == 65536,
                d == 0x1_0000_0000_0000_0000int,
        ;
        vstd::arithmetic::div_mod::lemma_div_multiples_vanish(-x, d);
    }
    assert(inv[13] == t[13]) by {
        let c = mat_cofactor(m, 1, 3);
        assert(c * SCALE * SCALE == d * (-y)) by (nonlinear_arith)
            requires
                c == (-y) * (65536 * 65536),
                SCALE == 65536,
                d == 0x1_0000_0000_0000_0000int,
        ;
        vstd::arithmetic::div_mod::lemma_div_multiples_vanish(-y, d);
    }
    assert(inv[14] == t[14]) by {
        let c = mat_cofactor(m, 2, 3);
        assert(c * SCALE * SCALE == d * (-z)) by (nonlinear_arith)
            requires
                c == (-z) * (65536 * 65536),
                SCALE == 65536,
                d == 0x1_0000_0000_0000_0000int,
        ;
        vstd::arithmetic::div_mod::lemma_div_multiples_vanish(-z, d);
    }
    assert(inv[15] == t[15]) by {
        let c = mat_cofactor(m, 3, 3);
        assert(c * SCALE * SCALE == d * (65536)) by (nonlinear_arith)
            requires
                c == (65536) * (65536 * 65536),
                SCALE == 65536,
                d == 0x1_0000_0000_0000_0000int,
        ;
        vstd::arithmetic::div_mod::lemma_div_multiples_vanish(65536, d);
    }
    assert(inv =~= t);
}

/// A translation by `-t` carries the point `t` to the origin.
pub proof fn lemma_translate_back(t: Vec3)
    requires
        t.wf(),
    ensures
        mat_apply(translate_seq(-t.x, -t.y, -t.z), t) == vec3(0, 0, 0),
{
    let m = translate_seq(-t.x, -t.y, -t.z);
    let s = SCALE as int;
    lemma_translate_entries(-t.x, -t.y, -t.z);
    assert(apply_at(m, t, 0) == 0) by {
        let (e0, e1, e2, e3) = (entry(m, 0, 0), entry(m, 1, 0), entry(m, 2, 0), entry(m, 3, 0));
        assert(e0 * t.x + e1 * t.y + e2 * t.z + e3 * s == 0) by (nonlinear_arith)
            requires
                e0 == 65536,
                e1 == 0,
                e2 == 0,
                e3 == -t.x,
                s == 65536,
        ;
    }
    assert(apply_at(m, t, 1) == 0) by {
        let (e0, e1, e2, e3) = (entry(m, 0, 1), entry(m, 1, 1), entry(m, 2, 1), entry(m, 3, 1));
        assert(e0 * t.x + e1 * t.y + e2 * t.z + e3 * s == 0) by (nonlinear_arith)
            requires
                e0 == 0,
                e1 == 65536,
                e2 == 0,
                e3 == -t.y,
                s == 65536,
        ;
    }
    assert(apply_at(m, t, 2) == 0) by {
        let (e0, e1, e2, e3) = (entry(m, 0, 2), entry(m, 1, 2), entry(m, 2, 2), entry(m, 3, 2));
        assert(e0 * t.x + e1 * t.y + e2 * t.z + e3 * s == 0) by (nonlinear_arith)
            requires
                e0 == 0,
                e1 == 0,
                e2 == 65536,
                e3 == -t.z,
                s == 65536,
        ;
    }
}

} // verus!
