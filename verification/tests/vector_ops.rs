use tinytracer::vector::{origin, reflect, rotate_camera, Mat4f, Vec3f, Vec4f};
use tinytracer::SCALE;

#[test]
fn componentwise_arithmetic() {
    let a = Vec3f::new(SCALE, 2 * SCALE, 3 * SCALE);
    let b = Vec3f::new(4 * SCALE, 5 * SCALE, 6 * SCALE);
    assert_eq!(a.add(&b), Vec3f::new(5 * SCALE, 7 * SCALE, 9 * SCALE));
    assert_eq!(b.sub(&a), Vec3f::new(3 * SCALE, 3 * SCALE, 3 * SCALE));
    assert_eq!(a.scale(2 * SCALE), Vec3f::new(2 * SCALE, 4 * SCALE, 6 * SCALE));
    assert_eq!(origin(), Vec3f::new(0, 0, 0));
}

#[test]
fn dot_and_cross_products() {
    let a = Vec3f::new(SCALE, 2 * SCALE, 3 * SCALE);
    let b = Vec3f::new(4 * SCALE, 5 * SCALE, 6 * SCALE);
    assert_eq!(a.dot(&b), 32 * SCALE);
    assert_eq!(a.cross(&b), Vec3f::new(-3 * SCALE, 6 * SCALE, -3 * SCALE));
}

#[test]
fn norm_and_normalize() {
    let v = Vec3f::new(0, 3 * SCALE, 4 * SCALE);
    assert_eq!(v.norm(), 5 * SCALE);
    assert_eq!(v.normalize(), Vec3f::new(0, 600_000, 800_000));
    // a vector of zero norm comes back unchanged
    assert_eq!(Vec3f::new(0, 0, 0).normalize(), Vec3f::new(0, 0, 0));
}

#[test]
fn component_access_by_index() {
    let v = Vec3f::new(7, 8, 9);
    assert_eq!(v.index(0), 7);
    assert_eq!(v.index(1), 8);
    assert_eq!(v.index(2), 9);
}

#[test]
fn reflection_about_an_axis_normal() {
    let d = Vec3f::new(3 * SCALE, -5 * SCALE, 7 * SCALE);
    let n = Vec3f::new(0, 0, SCALE);
    let r = reflect(d, n);
    assert_eq!(r, Vec3f::new(3 * SCALE, -5 * SCALE, -7 * SCALE));
    // the component along the normal flips exactly
    assert_eq!(r.dot(&n), -d.dot(&n));
    // and the length is preserved exactly
    assert_eq!(r.norm(), d.norm());
}

#[test]
fn homogeneous_vector_and_matrix_product() {
    let v = Vec4f::new(SCALE, 2 * SCALE, 3 * SCALE, 4 * SCALE);
    let w = Vec4f::new(SCALE, SCALE, SCALE, SCALE);
    assert_eq!(v.dot(&w), 10 * SCALE);
    let m = Mat4f {
        r0: Vec4f::new(SCALE, 0, 0, 0),
        r1: Vec4f::new(0, SCALE, 0, 0),
        r2: Vec4f::new(0, 0, SCALE, 0),
        r3: Vec4f::new(0, 0, 0, SCALE),
    };
    assert_eq!(m.mul(&v), v);
}

#[test]
fn camera_rotation_of_an_axis_direction() {
    let cam = Vec3f::new(0, 0, 2 * SCALE);
    let target = Vec3f::new(0, 0, 0);
    let dir = Vec3f::new(SCALE, 0, 0);
    assert_eq!(rotate_camera(cam, dir, target), Vec3f::new(SCALE, 0, 0));
}
