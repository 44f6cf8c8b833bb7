//! The frame driver: pinhole-camera primary rays and the per-pixel render
//! loop filling a canvas.

use vstd::prelude::*;

use crate::canvas::Canvas;
use crate::fixed::SCALE;
use crate::light::{Light, LightV};
use crate::shapes::{cast_v, lights_v, spheres_v, Ray, RayV, Sphere, SphereV};
use crate::vector::{normalize_v, V3i, Vec3f};

verus! {

/// Direction of the primary ray through pixel `(i, j)`: the pixel's
/// centered image-plane coordinates, in pixel units, against the focal
/// length, normalized. `focal` is the distance, in ticks, from the eye to
/// the image plane (the image height over twice the tangent of half the
/// vertical field of view).
pub open spec fn primary_dir_v(i: int, j: int, width: int, height: int, focal: int) -> V3i {
    normalize_v(
        V3i {
            x: (2 * i + 1 - width) * (SCALE as int),
            y: (height - (2 * j + 1)) * (SCALE as int),
            z: -focal,
        },
    )
}

/// The primary ray through pixel `(i, j)`: from the world origin, along
/// `primary_dir_v`.
pub open spec fn primary_ray_v(i: int, j: int, width: int, height: int, focal: int) -> RayV {
    RayV { origin: V3i { x: 0, y: 0, z: 0 }, direction: primary_dir_v(i, j, width, height, focal) }
}

/// Builds the primary ray through pixel `(i, j)`.
pub fn primary_ray(i: usize, j: usize, width: usize, height: usize, focal: i64) -> (r: Ray)
    requires
        width <= 100_000,
        height <= 100_000,
        i < width,
        j < height,
        focal >= 0,
    ensures
        r@ == primary_ray_v(i as int, j as int, width as int, height as int, focal as int),
{
    let x: i64 = 2 * (i as i64) + 1 - (width as i64);
    let y: i64 = (height as i64) - (2 * (j as i64) + 1);
    let dir = Vec3f::new(x * SCALE, y * SCALE, -focal).normalize();
    Ray::new(Vec3f::new(0, 0, 0), dir)
}

/// The color of pixel `(ii, jj)`: its primary ray cast at depth zero.
#[verifier::opaque]
pub open spec fn pixel_color(
    spheres: Seq<SphereV>,
    lights: Seq<LightV>,
    ii: int,
    jj: int,
    width: int,
    height: int,
    focal: int,
) -> V3i {
    cast_v(spheres, lights, primary_ray_v(ii, jj, width, height, focal), 0)
}

/// Computes the color of one pixel: its primary ray, cast at depth zero.
fn render_pixel(
    spheres: &Vec<Sphere>,
    lights: &Vec<Light>,
    i: usize,
    j: usize,
    width: usize,
    height: usize,
    focal: i64,
) -> (c: Vec3f)
    requires
        width <= 100_000,
        height <= 100_000,
        i < width,
        j < height,
        focal >= 0,
    ensures
        c@ == pixel_color(
            spheres_v(spheres@),
            lights_v(lights@),
            i as int,
            j as int,
            width as int,
            height as int,
            focal as int,
        ),
{
    let ray = primary_ray(i, j, width, height, focal);
    let color = ray.cast(spheres, lights, 0);
    proof {
        reveal(pixel_color);
    }
    color
}

/// Renders the scene into a fresh canvas: one primary ray per pixel, cast
/// at depth zero, stored in row-major order.
pub fn render(
    spheres: &Vec<Sphere>,
    lights: &Vec<Light>,
    width: usize,
    height: usize,
    focal: i64,
) -> (c: Canvas)
    requires
        width <= 100_000,
        height <= 100_000,
        width * height <= usize::MAX,
        focal >= 0,
    ensures
        c.wf(),
        c.width == width,
        c.height == height,
        forall|ii: int, jj: int|
            0 <= ii < width && 0 <= jj < height ==> c.framebuffer@[ii + jj * width]@ == pixel_color(
                spheres_v(spheres@),
                lights_v(lights@),
                ii,
                jj,
                width as int,
                height as int,
                focal as int,
            ),
{
    let ghost sv = spheres_v(spheres@);
    let ghost lv = lights_v(lights@);
    let mut canvas = Canvas::new(width, height);
    let mut j: usize = 0;
    while j < height
        invariant
            canvas.wf(),
            canvas.width == width,
            canvas.height == height,
            j <= height,
            width <= 100_000,
            height <= 100_000,
            focal >= 0,
            sv == spheres_v(spheres@),
            lv == lights_v(lights@),
            forall|ii: int, jj: int|
                0 <= ii < width && 0 <= jj < j ==> canvas.framebuffer@[ii + jj * width]@ == pixel_color(
                    sv,
                    lv,
                    ii,
                    jj,
                    width as int,
                    height as int,
                    focal as int,
                ),
        decreases height - j,
    {
        let mut i: usize = 0;
        while i < width
            invariant
                canvas.wf(),
                canvas.width == width,
                canvas.height == height,
                i <= width,
                j < height,
                width <= 100_000,
                height <= 100_000,
                focal >= 0,
                sv == spheres_v(spheres@),
                lv == lights_v(lights@),
                forall|ii: int, jj: int|
                    0 <= ii < width && 0 <= jj < j ==> canvas.framebuffer@[ii + jj * width]@
                        == pixel_color(
                        sv,
                        lv,
                        ii,
                        jj,
                        width as int,
                        height as int,
                        focal as int,
                    ),
                forall|ii: int|
                    0 <= ii < i ==> canvas.framebuffer@[ii + j * width]@ == pixel_color(
                        sv,
                        lv,
                        ii,
                        j as int,
                        width as int,
                        height as int,
                        focal as int,
                    ),
            decreases width - i,
        {
            let color = render_pixel(spheres, lights, i, j, width, height, focal);
            let ghost pre = canvas;
            canvas.set(i, j, color);
            proof {
                assert(i + j * width < width * height) by (nonlinear_arith)
                    requires
                        i < width,
                        j < height,
                ;
                assert forall|ii: int, jj: int| 0 <= ii < width && 0 <= jj < j implies
                    canvas.framebuffer@[ii + jj * width]@ == pixel_color(
                    sv,
                    lv,
                    ii,
                    jj,
                    width as int,
                    height as int,
                    focal as int,
                ) by {
                    vstd::arithmetic::mul::lemma_mul_inequality(jj + 1, j as int, width as int);
                    vstd::arithmetic::mul::lemma_mul_inequality(
                        jj + 1,
                        height as int,
                        width as int,
                    );
                    assert((jj + 1) * width == jj * width + width) by (nonlinear_arith);
                    assert(ii + jj * width != i + j * width);
                    assert(ii + jj * width < width * height);
                    assert(pre.framebuffer@.len() == width * height);
                    assert(canvas.framebuffer@ == pre.framebuffer@.update(
                        i + j * width,
                        color,
                    ));
                    assert(pre.framebuffer@[ii + jj * width]@ == pixel_color(
                        sv,
                        lv,
                        ii,
                        jj,
                        width as int,
                        height as int,
                        focal as int,
                    ));
                    assert(canvas.framebuffer@[ii + jj * width] == pre.framebuffer@[ii + jj
                        * width]);
                }
            }
            i = i + 1;
        }
        j = j + 1;
    }
    canvas
}

} // verus!
