//! Three-dimensional vectors over fixed-point scalars.
//!
//! `Vec3f` is the executable type; its mathematical view `V3i` carries the
//! tick counts as unbounded integers. The fixed-point semantics of each
//! operation is given by the `*_v` spec functions, while the `*_i` spec
//! functions give the exact (rounding-free) integer model in which the
//! algebraic laws of reflection are proved.

use vstd::prelude::*;

use crate::fixed::{
    fx_add, fx_add_s, fx_div, fx_div_s, fx_mul, fx_mul_s, fx_sqrt, fx_sqrt_s, fx_sub, fx_sub_s,
    lemma_fx_mul_self_nonneg, SCALE,
};

verus! {

/// Mathematical view of a vector: its three tick counts.
pub struct V3i {
    pub x: int,
    pub y: int,
    pub z: int,
}

/// A three-dimensional vector of fixed-point scalars.
#[derive(Copy, Clone, Debug, PartialEq, Eq, Structural)]
pub struct Vec3f {
    pub x: i64,
    pub y: i64,
    pub z: i64,
}

impl View for Vec3f {
    type V = V3i;

    open spec fn view(&self) -> V3i {
        V3i { x: self.x as int, y: self.y as int, z: self.z as int }
    }
}

/// Componentwise fixed-point sum.
pub open spec fn add_v(a: V3i, b: V3i) -> V3i {
    V3i { x: fx_add_s(a.x, b.x), y: fx_add_s(a.y, b.y), z: fx_add_s(a.z, b.z) }
}

/// Componentwise fixed-point difference.
pub open spec fn sub_v(a: V3i, b: V3i) -> V3i {
    V3i { x: fx_sub_s(a.x, b.x), y: fx_sub_s(a.y, b.y), z: fx_sub_s(a.z, b.z) }
}

/// Fixed-point scaling of a vector by a scalar.
pub open spec fn scale_v(a: V3i, k: int) -> V3i {
    V3i { x: fx_mul_s(a.x, k), y: fx_mul_s(a.y, k), z: fx_mul_s(a.z, k) }
}

/// Fixed-point dot product, accumulated left to right.
pub open spec fn dot_v(a: V3i, b: V3i) -> int {
    fx_add_s(fx_add_s(fx_mul_s(a.x, b.x), fx_mul_s(a.y, b.y)), fx_mul_s(a.z, b.z))
}

/// Fixed-point cross product.
pub open spec fn cross_v(a: V3i, b: V3i) -> V3i {
    V3i {
        x: fx_sub_s(fx_mul_s(a.y, b.z), fx_mul_s(a.z, b.y)),
        y: fx_sub_s(fx_mul_s(a.z, b.x), fx_mul_s(a.x, b.z)),
        z: fx_sub_s(fx_mul_s(a.x, b.y), fx_mul_s(a.y, b.x)),
    }
}

/// Fixed-point Euclidean norm.
pub open spec fn norm_v(a: V3i) -> int {
    fx_sqrt_s(dot_v(a, a))
}

/// Normalization: scaling by the reciprocal of the norm. A vector whose
/// norm rounds to zero is returned unchanged, so the operation is total;
/// the scene geometry only ever normalizes vectors of positive norm.
pub open spec fn normalize_v(a: V3i) -> V3i {
    if norm_v(a) == 0 {
        a
    } else {
        scale_v(a, fx_div_s(SCALE as int, norm_v(a)))
    }
}

/// Mirror reflection of `j` about the normal `n`:
/// `j - n * 2 * dot(j, n)`, evaluated in that order.
pub open spec fn reflect_v(j: V3i, n: V3i) -> V3i {
    sub_v(j, scale_v(scale_v(n, 2 * (SCALE as int)), dot_v(j, n)))
}

/// Exact integer dot product (the rounding-free model).
pub open spec fn dot_i(a: V3i, b: V3i) -> int {
    a.x * b.x + a.y * b.y + a.z * b.z
}

/// Exact integer mirror reflection: `d - n * 2 * dot(d, n)`.
pub open spec fn reflect_i(d: V3i, n: V3i) -> V3i {
    V3i {
        x: d.x - 2 * dot_i(d, n) * n.x,
        y: d.y - 2 * dot_i(d, n) * n.y,
        z: d.z - 2 * dot_i(d, n) * n.z,
    }
}

/// A fixed-point dot product of a vector with itself is nonnegative.
pub proof fn lemma_dot_self_nonneg(a: V3i)
    ensures
        dot_v(a, a) >= 0,
{
    lemma_fx_mul_self_nonneg(a.x);
    lemma_fx_mul_self_nonneg(a.y);
    lemma_fx_mul_self_nonneg(a.z);
}

/// In the exact model, reflecting about a unit normal flips the component
/// along the normal: `dot(reflect(d, n), n) == -dot(d, n)`.
pub proof fn lemma_reflect_flips_normal_component(d: V3i, n: V3i)
    requires
        dot_i(n, n) == 1,
    ensures
        dot_i(reflect_i(d, n), n) == -dot_i(d, n),
{
    let k = dot_i(d, n);
    assert((d.x - 2 * k * n.x) * n.x + (d.y - 2 * k * n.y) * n.y + (d.z - 2 * k * n.z) * n.z
        == (d.x * n.x + d.y * n.y + d.z * n.z) - 2 * k * (n.x * n.x + n.y * n.y + n.z * n.z))
        by (nonlinear_arith);
    assert(2 * k * (n.x * n.x + n.y * n.y + n.z * n.z) == 2 * k) by (nonlinear_arith)
        requires
            n.x * n.x + n.y * n.y + n.z * n.z == 1,
    ;
}

/// In the exact model, reflecting about a unit normal preserves the squared
/// length: `dot(reflect(d, n), reflect(d, n)) == dot(d, d)`.
pub proof fn lemma_reflect_preserves_length(d: V3i, n: V3i)
    requires
        dot_i(n, n) == 1,
    ensures
        dot_i(reflect_i(d, n), reflect_i(d, n)) == dot_i(d, d),
{
    let k = dot_i(d, n);
    assert((d.x - 2 * k * n.x) * (d.x - 2 * k * n.x)
        == d.x * d.x - 4 * k * (d.x * n.x) + 4 * (k * k) * (n.x * n.x)) by (nonlinear_arith);
    assert((d.y - 2 * k * n.y) * (d.y - 2 * k * n.y)
        == d.y * d.y - 4 * k * (d.y * n.y) + 4 * (k * k) * (n.y * n.y)) by (nonlinear_arith);
    assert((d.z - 2 * k * n.z) * (d.z - 2 * k * n.z)
        == d.z * d.z - 4 * k * (d.z * n.z) + 4 * (k * k) * (n.z * n.z)) by (nonlinear_arith);
    assert(4 * k * (d.x * n.x) + 4 * k * (d.y * n.y) + 4 * k * (d.z * n.z) == 4 * (k * k))
        by (nonlinear_arith)
        requires
            d.x * n.x + d.y * n.y + d.z * n.z == k,
    ;
    assert(4 * (k * k) * (n.x * n.x) + 4 * (k * k) * (n.y * n.y) + 4 * (k * k) * (n.z * n.z)
        == 4 * (k * k)) by (nonlinear_arith)
        requires
            n.x * n.x + n.y * n.y + n.z * n.z == 1,
    ;
}

/// On an axis-aligned unit normal the fixed-point reflection is exact and
/// obeys the mirror law with no rounding at all: the component along the
/// normal flips, the others are untouched, so the projection on the normal
/// is negated and the squared length is kept. Stated for the normal along
/// the z axis; the other axes behave alike by symmetry of the formulas.
/// The bound keeps the doubled component representable.
pub proof fn lemma_reflect_exact_on_axis_normal(j: V3i)
    requires
        -1_000_000_000_000_000_000 <= j.x <= 1_000_000_000_000_000_000,
        -1_000_000_000_000_000_000 <= j.y <= 1_000_000_000_000_000_000,
        -1_000_000_000_000_000_000 <= j.z <= 1_000_000_000_000_000_000,
    ensures
        ({
            let n = V3i { x: 0, y: 0, z: SCALE as int };
            &&& reflect_v(j, n) == (V3i { x: j.x, y: j.y, z: -j.z })
            &&& dot_v(reflect_v(j, n), n) == -dot_v(j, n)
        }),
{
    let n = V3i { x: 0, y: 0, z: SCALE as int };
    vstd::arithmetic::div_mod::lemma_div_of0(SCALE as int);
    crate::fixed::lemma_fx_mul_one(j.z);
    crate::fixed::lemma_fx_mul_one(-j.z);
    crate::fixed::lemma_fx_mul_one(2 * (SCALE as int));
    let d = dot_v(j, n);
    assert(d == j.z);
    crate::fixed::lemma_div_trunc_multiple(2 * j.z);
    assert((2 * (SCALE as int)) * j.z == (SCALE as int) * (2 * j.z)) by (nonlinear_arith);
    assert(fx_mul_s(2 * (SCALE as int), j.z) == 2 * j.z);
    let v1 = scale_v(n, 2 * (SCALE as int));
    assert(v1 == (V3i { x: 0, y: 0, z: 2 * (SCALE as int) }));
    let v2 = scale_v(v1, d);
    assert(v2 == (V3i { x: 0, y: 0, z: 2 * j.z }));
    assert(sub_v(j, v2) == (V3i { x: j.x, y: j.y, z: -j.z }));
    assert(reflect_v(j, n) == (V3i { x: j.x, y: j.y, z: -j.z }));
}

impl Vec3f {
    /// Builds a vector from its three fixed-point components.
    pub fn new(x: i64, y: i64, z: i64) -> (r: Vec3f)
        ensures
            r@ == (V3i { x: x as int, y: y as int, z: z as int }),
    {
        Vec3f { x, y, z }
    }

    /// Dot product.
    pub fn dot(&self, other: &Vec3f) -> (r: i64)
        ensures
            r == dot_v(self@, other@),
    {
        fx_add(fx_add(fx_mul(self.x, other.x), fx_mul(self.y, other.y)), fx_mul(self.z, other.z))
    }

    /// Cross product.
    pub fn cross(&self, other: &Vec3f) -> (r: Vec3f)
        ensures
            r@ == cross_v(self@, other@),
    {
        Vec3f::new(
            fx_sub(fx_mul(self.y, other.z), fx_mul(self.z, other.y)),
            fx_sub(fx_mul(self.z, other.x), fx_mul(self.x, other.z)),
            fx_sub(fx_mul(self.x, other.y), fx_mul(self.y, other.x)),
        )
    }

    /// Euclidean norm.
    pub fn norm(&self) -> (r: i64)
        ensures
            r == norm_v(self@),
            r >= 0,
    {
        proof {
            lemma_dot_self_nonneg(self@);
        }
        fx_sqrt(self.dot(self))
    }

    /// Scaling by the reciprocal of the norm; a vector of zero norm is
    /// returned unchanged.
    pub fn normalize(&self) -> (r: Vec3f)
        ensures
            r@ == normalize_v(self@),
    {
        let n = self.norm();
        if n == 0 {
            *self
        } else {
            self.scale(fx_div(SCALE, n))
        }
    }

    /// Componentwise sum.
    pub fn add(&self, other: &Vec3f) -> (r: Vec3f)
        ensures
            r@ == add_v(self@, other@),
    {
        Vec3f::new(fx_add(self.x, other.x), fx_add(self.y, other.y), fx_add(self.z, other.z))
    }

    /// Componentwise difference.
    pub fn sub(&self, other: &Vec3f) -> (r: Vec3f)
        ensures
            r@ == sub_v(self@, other@),
    {
        Vec3f::new(fx_sub(self.x, other.x), fx_sub(self.y, other.y), fx_sub(self.z, other.z))
    }

    /// Scaling by a fixed-point scalar.
    pub fn scale(&self, k: i64) -> (r: Vec3f)
        ensures
            r@ == scale_v(self@, k as int),
    {
        Vec3f::new(fx_mul(self.x, k), fx_mul(self.y, k), fx_mul(self.z, k))
    }

    /// Component access; the three valid indices are 0, 1 and 2.
    pub fn index(&self, idx: usize) -> (r: i64)
        requires
            idx < 3,
        ensures
            r == (if idx == 0 {
                self@.x
            } else if idx == 1 {
                self@.y
            } else {
                self@.z
            }),
    {
        if idx == 0 {
            self.x
        } else if idx == 1 {
            self.y
        } else {
            self.z
        }
    }
}

/// Mirror reflection of `j` about the normal `n`.
pub fn reflect(j: Vec3f, n: Vec3f) -> (r: Vec3f)
    ensures
        r@ == reflect_v(j@, n@),
{
    j.sub(&n.scale(2 * SCALE).scale(j.dot(&n)))
}

/// The zero vector.
pub fn origin() -> (r: Vec3f)
    ensures
        r@ == (V3i { x: 0, y: 0, z: 0 }),
{
    Vec3f::new(0, 0, 0)
}

/// Mathematical view of a homogeneous vector.
pub struct V4i {
    pub x: int,
    pub y: int,
    pub z: int,
    pub w: int,
}

/// A homogeneous four-component vector of fixed-point scalars.
#[derive(Copy, Clone, Debug, PartialEq, Eq, Structural)]
pub struct Vec4f {
    pub x: i64,
    pub y: i64,
    pub z: i64,
    pub w: i64,
}

impl View for Vec4f {
    type V = V4i;

    open spec fn view(&self) -> V4i {
        V4i { x: self.x as int, y: self.y as int, z: self.z as int, w: self.w as int }
    }
}

/// Fixed-point dot product of homogeneous vectors, accumulated left to
/// right.
pub open spec fn dot4_v(a: V4i, b: V4i) -> int {
    fx_add_s(
        fx_add_s(fx_add_s(fx_mul_s(a.x, b.x), fx_mul_s(a.y, b.y)), fx_mul_s(a.z, b.z)),
        fx_mul_s(a.w, b.w),
    )
}

impl Vec4f {
    /// Builds a homogeneous vector from its four fixed-point components.
    pub fn new(x: i64, y: i64, z: i64, w: i64) -> (r: Vec4f)
        ensures
            r@ == (V4i { x: x as int, y: y as int, z: z as int, w: w as int }),
    {
        Vec4f { x, y, z, w }
    }

    /// Dot product.
    pub fn dot(&self, other: &Vec4f) -> (r: i64)
        ensures
            r == dot4_v(self@, other@),
    {
        fx_add(
            fx_add(
                fx_add(fx_mul(self.x, other.x), fx_mul(self.y, other.y)),
                fx_mul(self.z, other.z),
            ),
            fx_mul(self.w, other.w),
        )
    }
}

/// A four-by-four matrix, held as its rows.
#[derive(Copy, Clone, Debug, PartialEq, Eq, Structural)]
pub struct Mat4f {
    pub r0: Vec4f,
    pub r1: Vec4f,
    pub r2: Vec4f,
    pub r3: Vec4f,
}

impl Mat4f {
    /// Multiplication of the matrix with a column vector: one dot product
    /// per row.
    pub fn mul(&self, other: &Vec4f) -> (r: Vec4f)
        ensures
            r@ == (V4i {
                x: dot4_v(self.r0@, other@),
                y: dot4_v(self.r1@, other@),
                z: dot4_v(self.r2@, other@),
                w: dot4_v(self.r3@, other@),
            }),
    {
        Vec4f::new(
            self.r0.dot(other),
            self.r1.dot(other),
            self.r2.dot(other),
            self.r3.dot(other),
        )
    }
}

/// The camera basis change of `rotate_camera`: the new direction of `dir`
/// for a camera at `origin` looking at `target`.
pub open spec fn rotate_camera_v(origin: V3i, dir: V3i, target: V3i) -> V3i {
    let z_axis = normalize_v(sub_v(origin, target));
    let x_axis = cross_v(V3i { x: 0, y: SCALE as int, z: 0 }, z_axis);
    let y_axis = normalize_v(cross_v(z_axis, x_axis));
    let d4 = V4i { x: dir.x, y: dir.y, z: dir.z, w: 0 };
    V3i {
        x: dot4_v(V4i { x: x_axis.x, y: x_axis.y, z: x_axis.z, w: 0 }, d4),
        y: dot4_v(V4i { x: y_axis.x, y: y_axis.y, z: y_axis.z, w: 0 }, d4),
        z: dot4_v(V4i { x: z_axis.x, y: z_axis.y, z: z_axis.z, w: 0 }, d4),
    }
}

/// Rotates a camera ray direction into the basis of a camera standing at
/// `origin` and looking toward `target`.
pub fn rotate_camera(origin: Vec3f, dir: Vec3f, target: Vec3f) -> (r: Vec3f)
    ensures
        r@ == rotate_camera_v(origin@, dir@, target@),
{
    let z_axis = origin.sub(&target).normalize();
    let x_axis = Vec3f::new(0, SCALE, 0).cross(&z_axis);
    let y_axis = z_axis.cross(&x_axis).normalize();
    let transformation_matrix = Mat4f {
        r0: Vec4f::new(x_axis.x, x_axis.y, x_axis.z, 0),
        r1: Vec4f::new(y_axis.x, y_axis.y, y_axis.z, 0),
        r2: Vec4f::new(z_axis.x, z_axis.y, z_axis.z, 0),
        r3: Vec4f::new(origin.x, origin.y, origin.z, SCALE),
    };
    let new_dir = transformation_matrix.mul(&Vec4f::new(dir.x, dir.y, dir.z, 0));
    Vec3f::new(new_dir.x, new_dir.y, new_dir.z)
}

} // verus!
