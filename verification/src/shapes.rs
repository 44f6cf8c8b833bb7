//! Rays, spheres, the procedural checkerboard ground plane, scene-wide
//! nearest-hit resolution, and the recursive shader.

use vstd::prelude::*;

use crate::fixed::{
    div_trunc128, div_trunc_s, fx_add, fx_add_s, fx_div, fx_div_s, fx_max0, fx_max0_s, fx_mul,
    fx_mul_s, fx_neg, fx_neg_s, fx_pow, fx_pow_s, fx_sqrt, fx_sqrt_s, fx_sub, fx_sub_s,
    lemma_div_trunc_bounds, lemma_isqrt_bounds, FX_MAX, SCALE,
};
use crate::light::{Light, LightV};
use crate::material::{Material, MaterialV};
use crate::vector::{
    add_v, dot_v, norm_v, normalize_v, reflect, reflect_v, scale_v, sub_v, V3i, Vec3f,
};

verus! {

/// Offset, in ticks, used to push secondary rays off the surface that
/// spawned them (one thousandth of a unit).
pub const SHADOW_BIAS: i64 = 1_000;

/// A ray direction is treated as parallel to the ground plane when the
/// magnitude of its vertical component is at most this many ticks.
pub const PLANE_EPS: i64 = 1_000;

/// Hits farther than this many ticks (one thousand units) are treated as
/// having escaped the scene.
pub const HORIZON: i64 = 1_000_000_000;

/// Height of the ground plane below the origin, in ticks (four units).
pub const PLANE_DEPTH: i64 = 4_000_000;

/// Mathematical view of a ray.
pub struct RayV {
    pub origin: V3i,
    pub direction: V3i,
}

/// A ray: an origin and a direction. The shading math expects the
/// direction to have been normalized by the producer.
#[derive(Copy, Clone, Debug, PartialEq, Eq, Structural)]
pub struct Ray {
    pub origin: Vec3f,
    pub direction: Vec3f,
}

impl View for Ray {
    type V = RayV;

    open spec fn view(&self) -> RayV {
        RayV { origin: self.origin@, direction: self.direction@ }
    }
}

/// Mathematical view of a sphere.
pub struct SphereV {
    pub center: V3i,
    pub radius: int,
    pub material: MaterialV,
}

/// A sphere with a material.
#[derive(Copy, Clone, Debug, PartialEq, Eq, Structural)]
pub struct Sphere {
    pub center: Vec3f,
    pub radius: i64,
    pub material: Material,
}

impl View for Sphere {
    type V = SphereV;

    open spec fn view(&self) -> SphereV {
        SphereV { center: self.center@, radius: self.radius as int, material: self.material@ }
    }
}

/// The view of an optional fixed-point distance.
pub open spec fn opt_fx(o: Option<i64>) -> Option<int> {
    match o {
        None => None,
        Some(v) => Some(v as int),
    }
}

/// Nearest intersection distance of a ray with a sphere: the closed-form
/// quadratic solve, in fixed-point arithmetic. `None` when the ray misses
/// the sphere or the sphere lies entirely behind the origin; otherwise the
/// smaller nonnegative root, or the larger root when the origin lies
/// inside the sphere.
pub open spec fn sphere_hit(s: SphereV, r: RayV) -> Option<int> {
    let l = sub_v(s.center, r.origin);
    let adj = dot_v(l, r.direction);
    let d2 = fx_sub_s(dot_v(l, l), fx_mul_s(adj, adj));
    let r2 = fx_mul_s(s.radius, s.radius);
    if d2 > r2 {
        None
    } else {
        let thc = fx_sqrt_s(fx_sub_s(r2, d2));
        let t0 = fx_sub_s(adj, thc);
        let t1 = fx_add_s(adj, thc);
        if t0 < 0 && t1 < 0 {
            None
        } else if t0 >= 0 {
            Some(t0)
        } else {
            Some(t1)
        }
    }
}

/// The fixed background color, a muted rose tone.
pub open spec fn background_v() -> V3i {
    V3i { x: 600_000, y: 400_000, z: 400_000 }
}

/// The fixed background color returned by rays that hit nothing.
pub fn background_color() -> (r: Vec3f)
    ensures
        r@ == background_v(),
{
    Vec3f::new(600_000, 400_000, 400_000)
}

/// First checkerboard tile index: the integer part, truncated toward
/// zero, of half the x coordinate plus one thousand.
pub open spec fn tile_index_a(x: int) -> int {
    div_trunc_s(x + 2000 * (SCALE as int), 2 * (SCALE as int))
}

/// Second checkerboard tile index: the integer part, truncated toward
/// zero, of half the z coordinate.
pub open spec fn tile_index_b(z: int) -> int {
    div_trunc_s(z, 2 * (SCALE as int))
}

/// Whether the checkerboard tile under `(x, z)` is of the odd parity.
pub open spec fn checker_odd(x: int, z: int) -> bool {
    (tile_index_a(x) + tile_index_b(z)) % 2 == 1
}

/// The color of the checkerboard tile under `(x, z)`: a light grey on the
/// tiles of odd parity, a warm tan on the others.
pub open spec fn checker_color_v(x: int, z: int) -> V3i {
    if checker_odd(x, z) {
        V3i { x: 300_000, y: 300_000, z: 300_000 }
    } else {
        V3i { x: 300_000, y: 200_000, z: 100_000 }
    }
}

/// The ground plane's procedural material: the tile color under the hit
/// point, lit purely diffusely.
pub open spec fn ground_material_v(x: int, z: int) -> MaterialV {
    MaterialV {
        diffuse_color: checker_color_v(x, z),
        albedo: V3i { x: SCALE as int, y: 0, z: 0 },
        specular_exponent: 0,
    }
}

/// The ground plane's outward normal: world up.
pub open spec fn ground_normal_v() -> V3i {
    V3i { x: 0, y: SCALE as int, z: 0 }
}

/// A negation does not change parity.
proof fn lemma_neg_parity(t: int)
    requires
        t >= 0,
    ensures
        (-t) % 2 == t % 2,
{
    vstd::arithmetic::div_mod::lemma_fundamental_div_mod(t, 2);
    vstd::arithmetic::div_mod::lemma_mod_bound(t, 2);
    if t % 2 == 0 {
        vstd::arithmetic::div_mod::lemma_fundamental_div_mod_converse(-t, 2, -(t / 2), 0);
    } else {
        vstd::arithmetic::div_mod::lemma_fundamental_div_mod_converse(-t, 2, -(t / 2) - 1, 1);
    }
}

/// Whether the checkerboard tile under `(x, z)` is of the odd parity.
pub fn tile_parity(x: i64, z: i64) -> (r: bool)
    ensures
        r == checker_odd(x as int, z as int),
{
    let a: i128 = div_trunc128(x as i128 + 2_000_000_000i128, 2_000_000i128);
    let b: i128 = div_trunc128(z as i128, 2_000_000i128);
    let s: i128 = a + b;
    if s >= 0 {
        (s as u128) % 2 == 1
    } else {
        proof {
            lemma_neg_parity(-(s as int));
        }
        ((-s) as u128) % 2 == 1
    }
}

/// The color of the checkerboard tile under `(x, z)`.
pub fn checker_color(x: i64, z: i64) -> (r: Vec3f)
    ensures
        r@ == checker_color_v(x as int, z as int),
{
    if tile_parity(x, z) {
        Vec3f::new(300_000, 300_000, 300_000)
    } else {
        Vec3f::new(300_000, 200_000, 100_000)
    }
}

/// The ground plane's procedural material at `(x, z)`.
pub fn ground_material(x: i64, z: i64) -> (m: Material)
    ensures
        m@ == ground_material_v(x as int, z as int),
{
    Material::new(checker_color(x, z), Vec3f::new(SCALE, 0, 0), 0)
}

/// Intersection of a ray with the bounded ground plane at height minus
/// four: the distance and the hit point, before any comparison with the
/// sphere hits. Rays too close to parallel are taken as missing it, as are
/// hits behind the origin, beyond ten units off the x axis, or deeper than
/// minus thirty in z.
pub open spec fn plane_hit(r: RayV) -> Option<(int, V3i)> {
    if r.direction.y > PLANE_EPS as int || r.direction.y < -(PLANE_EPS as int) {
        let d = fx_div_s(fx_neg_s(fx_add_s(r.origin.y, PLANE_DEPTH as int)), r.direction.y);
        let pt = add_v(r.origin, scale_v(r.direction, d));
        if d > 0 && pt.x < 10 * (SCALE as int) && pt.x > -10 * (SCALE as int) && pt.z > -30 * (
        SCALE as int) {
            Some((d, pt))
        } else {
            None
        }
    } else {
        None
    }
}

/// The nearest sphere hit among the first `n` spheres: the index of the
/// winning sphere and its distance. A later sphere replaces an earlier one
/// only when strictly closer, so the first of equally near spheres wins.
pub open spec fn best_sphere_upto(spheres: Seq<SphereV>, r: RayV, n: int) -> Option<(int, int)>
    decreases n,
{
    if n <= 0 {
        None
    } else {
        let prev = best_sphere_upto(spheres, r, n - 1);
        match sphere_hit(spheres[n - 1], r) {
            None => prev,
            Some(d) => match prev {
                None => Some((n - 1, d)),
                Some(p) => if d < p.1 {
                    Some((n - 1, d))
                } else {
                    prev
                },
            },
        }
    }
}

/// Mathematical view of a resolved intersection.
pub struct HitV {
    pub point: V3i,
    pub normal: V3i,
    pub material: MaterialV,
}

/// A resolved intersection: the hit point, the outward unit normal there,
/// and the surface material.
#[derive(Copy, Clone, Debug, PartialEq, Eq, Structural)]
pub struct Hit {
    pub point: Vec3f,
    pub normal: Vec3f,
    pub material: Material,
}

impl View for Hit {
    type V = HitV;

    open spec fn view(&self) -> HitV {
        HitV { point: self.point@, normal: self.normal@, material: self.material@ }
    }
}

/// The view of an optional resolved intersection.
pub open spec fn opt_hit(o: Option<Hit>) -> Option<HitV> {
    match o {
        None => None,
        Some(h) => Some(h@),
    }
}

/// The intersection record for a sphere hit at distance `d`.
pub open spec fn sphere_hit_record(s: SphereV, r: RayV, d: int) -> HitV {
    let pt = add_v(r.origin, scale_v(r.direction, d));
    HitV { point: pt, normal: normalize_v(sub_v(pt, s.center)), material: s.material }
}

/// The sequence of sphere views.
pub open spec fn spheres_v(spheres: Seq<Sphere>) -> Seq<SphereV> {
    spheres.map_values(|s: Sphere| s@)
}

/// The sequence of light views.
pub open spec fn lights_v(lights: Seq<Light>) -> Seq<LightV> {
    lights.map_values(|l: Light| l@)
}

/// Scene-wide nearest hit of a ray: the nearest sphere hit, unless the
/// bounded ground plane is hit strictly closer, and only within the
/// horizon.
pub open spec fn resolve(spheres: Seq<SphereV>, r: RayV) -> Option<HitV> {
    let best = best_sphere_upto(spheres, r, spheres.len() as int);
    let plane = plane_hit(r);
    let plane_wins = match plane {
        None => false,
        Some(p) => match best {
            None => true,
            Some(b) => p.0 < b.1,
        },
    };
    if plane_wins {
        let p = plane->Some_0;
        if p.0 < HORIZON as int {
            Some(
                HitV {
                    point: p.1,
                    normal: ground_normal_v(),
                    material: ground_material_v(p.1.x, p.1.z),
                },
            )
        } else {
            None
        }
    } else {
        match best {
            None => None,
            Some(b) => if b.1 < HORIZON as int {
                Some(sphere_hit_record(spheres[b.0], r, b.1))
            } else {
                None
            },
        }
    }
}

/// The view of the running best sphere candidate: an index and the
/// distance at which that sphere is hit.
pub open spec fn best_v(b: Option<(usize, i64)>) -> Option<(int, int)> {
    match b {
        None => None,
        Some(p) => Some((p.0 as int, p.1 as int)),
    }
}

impl Ray {
    /// Builds a ray from its origin and its direction.
    pub fn new(origin: Vec3f, dir: Vec3f) -> (r: Ray)
        ensures
            r@ == (RayV { origin: origin@, direction: dir@ }),
    {
        Ray { origin, direction: dir }
    }

    /// Scene-wide nearest hit of this ray: a linear scan of the spheres,
    /// then the bounded ground plane as a strictly closer fallback, all
    /// cut off at the horizon.
    pub fn scene_intersections(&self, spheres: &Vec<Sphere>) -> (r: Option<Hit>)
        ensures
            opt_hit(r) == resolve(spheres_v(spheres@), self@),
    {
        let ghost sv = spheres_v(spheres@);
        let mut best: Option<(usize, i64)> = None;
        let mut i: usize = 0;
        while i < spheres.len()
            invariant
                i <= spheres.len(),
                sv == spheres_v(spheres@),
                best_v(best) == best_sphere_upto(sv, self@, i as int),
                match best {
                    None => true,
                    Some(b) => b.0 < i,
                },
            decreases spheres.len() - i,
        {
            let hit = spheres[i].intersects_with_ray(self);
            match hit {
                Some(d) => {
                    match best {
                        None => {
                            best = Some((i, d));
                        },
                        Some(b) => {
                            if d < b.1 {
                                best = Some((i, d));
                            }
                        },
                    }
                },
                None => {},
            }
            i = i + 1;
        }
        let plane: Option<(i64, Vec3f)> = if self.direction.y > PLANE_EPS || self.direction.y
            < -PLANE_EPS {
            let d = fx_div(fx_neg(fx_add(self.origin.y, PLANE_DEPTH)), self.direction.y);
            let pt = self.origin.add(&self.direction.scale(d));
            if d > 0 && pt.x < 10 * SCALE && pt.x > -(10 * SCALE) && pt.z > -(30 * SCALE) {
                Some((d, pt))
            } else {
                None
            }
        } else {
            None
        };
        match plane {
            Some(p) => {
                let plane_wins = match best {
                    None => true,
                    Some(b) => p.0 < b.1,
                };
                if plane_wins {
                    if p.0 < HORIZON {
                        let m = ground_material(p.1.x, p.1.z);
                        return Some(Hit { point: p.1, normal: Vec3f::new(0, SCALE, 0), material: m });
                    }
                    return None;
                }
            },
            None => {},
        }
        match best {
            None => None,
            Some(b) => {
                if b.1 < HORIZON {
                    let s = spheres[b.0];
                    let pt = self.origin.add(&self.direction.scale(b.1));
                    let n = pt.sub(&s.center).normalize();
                    Some(Hit { point: pt, normal: n, material: s.material })
                } else {
                    None
                }
            },
        }
    }
}

/// Pure white, used to tint the specular term.
pub open spec fn white_v() -> V3i {
    V3i { x: SCALE as int, y: SCALE as int, z: SCALE as int }
}

/// Pure white.
pub fn white() -> (r: Vec3f)
    ensures
        r@ == white_v(),
{
    Vec3f::new(SCALE, SCALE, SCALE)
}

/// Unit direction from `point` toward the light.
pub open spec fn light_dir_v(l: LightV, point: V3i) -> V3i {
    normalize_v(sub_v(l.position, point))
}

/// Distance from `point` to the light.
pub open spec fn light_distance_v(l: LightV, point: V3i) -> int {
    norm_v(sub_v(l.position, point))
}

/// Origin of a secondary ray: the surface point pushed a small bias off
/// the surface, on the side of the normal that the ray travels.
pub open spec fn bias_origin_v(point: V3i, normal: V3i, dir: V3i) -> V3i {
    if dot_v(dir, normal) < 0 {
        sub_v(point, scale_v(normal, SHADOW_BIAS as int))
    } else {
        add_v(point, scale_v(normal, SHADOW_BIAS as int))
    }
}

/// Whether some surface occludes the light as seen from `point`: the
/// shadow ray toward the light hits something strictly closer than the
/// light itself.
pub open spec fn occluded_v(spheres: Seq<SphereV>, point: V3i, normal: V3i, l: LightV) -> bool {
    let ldir = light_dir_v(l, point);
    let so = bias_origin_v(point, normal, ldir);
    match resolve(spheres, RayV { origin: so, direction: ldir }) {
        None => false,
        Some(h) => norm_v(sub_v(h.point, so)) < light_distance_v(l, point),
    }
}

/// Diffuse term contributed by one light: its intensity times the
/// nonnegative part of the cosine of incidence.
pub open spec fn diffuse_term_v(l: LightV, point: V3i, normal: V3i) -> int {
    fx_mul_s(l.intensity, fx_max0_s(dot_v(light_dir_v(l, point), normal)))
}

/// Specular term contributed by one light: the nonnegative part of the
/// mirror alignment with the viewing direction, raised to the material's
/// exponent, times the intensity.
pub open spec fn specular_term_v(l: LightV, point: V3i, normal: V3i, dir: V3i, exp: nat) -> int {
    fx_mul_s(
        fx_pow_s(fx_max0_s(dot_v(reflect_v(light_dir_v(l, point), normal), dir)), exp),
        l.intensity,
    )
}

/// Diffuse and specular intensities accumulated left to right over the
/// lights; an occluded light contributes nothing.
pub open spec fn light_accum(
    spheres: Seq<SphereV>,
    lights: Seq<LightV>,
    point: V3i,
    normal: V3i,
    dir: V3i,
    exp: nat,
) -> (int, int)
    decreases lights.len(),
{
    if lights.len() == 0 {
        (0, 0)
    } else {
        let acc = light_accum(spheres, lights.drop_last(), point, normal, dir, exp);
        let l = lights.last();
        if occluded_v(spheres, point, normal, l) {
            acc
        } else {
            (
                fx_add_s(acc.0, diffuse_term_v(l, point, normal)),
                fx_add_s(acc.1, specular_term_v(l, point, normal, dir, exp)),
            )
        }
    }
}

/// Final surface color: the three lighting terms, each weighted by its
/// albedo channel, summed.
pub open spec fn shade_v(material: MaterialV, diffuse: int, specular: int, reflection: V3i) -> V3i {
    add_v(
        add_v(
            scale_v(material.diffuse_color, fx_mul_s(material.albedo.x, diffuse)),
            scale_v(scale_v(white_v(), material.albedo.y), specular),
        ),
        scale_v(reflection, material.albedo.z),
    )
}

/// Color returned by a ray cast into the scene at the given recursion
/// depth: the background beyond the depth cap or on a miss, and otherwise
/// the shaded nearest hit, with one recursive bounce along the mirror
/// reflection.
pub open spec fn cast_v(spheres: Seq<SphereV>, lights: Seq<LightV>, r: RayV, depth: nat) -> V3i
    decreases 5 - depth,
{
    if depth > 4 {
        background_v()
    } else {
        match resolve(spheres, r) {
            None => background_v(),
            Some(h) => {
                let rdir = reflect_v(r.direction, h.normal);
                let rorig = bias_origin_v(h.point, h.normal, rdir);
                let rcol = cast_v(
                    spheres,
                    lights,
                    RayV { origin: rorig, direction: rdir },
                    depth + 1,
                );
                let acc = light_accum(
                    spheres,
                    lights,
                    h.point,
                    h.normal,
                    r.direction,
                    h.material.specular_exponent,
                );
                shade_v(h.material, acc.0, acc.1, rcol)
            },
        }
    }
}

impl Sphere {
    /// Builds a sphere from its center, its radius and its material.
    pub fn new(center: Vec3f, radius: i64, material: Material) -> (s: Sphere)
        ensures
            s@ == (SphereV { center: center@, radius: radius as int, material: material@ }),
    {
        Sphere { center, radius, material }
    }

    /// Nearest positive intersection distance of `ray` with the sphere.
    pub fn intersects_with_ray(&self, ray: &Ray) -> (r: Option<i64>)
        ensures
            opt_fx(r) == sphere_hit(self@, ray@),
    {
        let l = self.center.sub(&ray.origin);
        let adj = l.dot(&ray.direction);
        let d2 = fx_sub(l.dot(&l), fx_mul(adj, adj));
        let r2 = fx_mul(self.radius, self.radius);
        if d2 > r2 {
            return None;
        }
        let thc = fx_sqrt(fx_sub(r2, d2));
        let t0 = fx_sub(adj, thc);
        let t1 = fx_add(adj, thc);
        if t0 < 0 && t1 < 0 {
            None
        } else if t0 >= 0 {
            Some(t0)
        } else {
            Some(t1)
        }
    }
}

impl Ray {
    /// Casts this ray into the scene and returns its color. Beyond the
    /// depth cap, and on a miss, this is the background color; otherwise
    /// the local illumination of the nearest hit, each light shadow-tested
    /// against the scene, composited with one recursive mirror bounce.
    #[verifier::rlimit(60)]
    pub fn cast(&self, spheres: &Vec<Sphere>, lights: &Vec<Light>, depth: usize) -> (c: Vec3f)
        ensures
            c@ == cast_v(spheres_v(spheres@), lights_v(lights@), self@, depth as nat),
            depth > 4 ==> c@ == background_v(),
            resolve(spheres_v(spheres@), self@) is None ==> c@ == background_v(),
        decreases 5 - depth,
    {
        if depth > 4 {
            return background_color();
        }
        let hit = self.scene_intersections(spheres);
        match hit {
            None => background_color(),
            Some(h) => {
                let reflect_dir = reflect(self.direction, h.normal);
                let reflect_orig = if reflect_dir.dot(&h.normal) < 0 {
                    h.point.sub(&h.normal.scale(SHADOW_BIAS))
                } else {
                    h.point.add(&h.normal.scale(SHADOW_BIAS))
                };
                let reflection = Ray::new(reflect_orig, reflect_dir);
                let reflection_color = reflection.cast(spheres, lights, depth + 1);
                let mut diffuse_light_intensity: i64 = 0;
                let mut specular_light_intensity: i64 = 0;
                let mut j: usize = 0;
                while j < lights.len()
                    invariant
                        j <= lights.len(),
                        (diffuse_light_intensity as int, specular_light_intensity as int)
                            == light_accum(
                            spheres_v(spheres@),
                            lights_v(lights@).subrange(0, j as int),
                            h@.point,
                            h@.normal,
                            self@.direction,
                            h@.material.specular_exponent,
                        ),
                    decreases lights.len() - j,
                {
                    let light = lights[j];
                    let light_vec = light.position.sub(&h.point);
                    let light_dir = light_vec.normalize();
                    let light_distance = light_vec.norm();
                    let shadow_origin = if light_dir.dot(&h.normal) < 0 {
                        h.point.sub(&h.normal.scale(SHADOW_BIAS))
                    } else {
                        h.point.add(&h.normal.scale(SHADOW_BIAS))
                    };
                    let shadow_ray = Ray::new(shadow_origin, light_dir);
                    let occluded = match shadow_ray.scene_intersections(spheres) {
                        Some(sh) => sh.point.sub(&shadow_origin).norm() < light_distance,
                        None => false,
                    };
                    if !occluded {
                        diffuse_light_intensity = fx_add(
                            diffuse_light_intensity,
                            fx_mul(light.intensity, fx_max0(light_dir.dot(&h.normal))),
                        );
                        specular_light_intensity = fx_add(
                            specular_light_intensity,
                            fx_mul(
                                fx_pow(
                                    fx_max0(reflect(light_dir, h.normal).dot(&self.direction)),
                                    h.material.specular_exponent,
                                ),
                                light.intensity,
                            ),
                        );
                    }
                    proof {
                        let lv = lights_v(lights@);
                        assert(lv.subrange(0, j as int + 1).drop_last() =~= lv.subrange(
                            0,
                            j as int,
                        ));
                        assert(lv.subrange(0, j as int + 1).last() == lv[j as int]);
                    }
                    j = j + 1;
                }
                proof {
                    let lv = lights_v(lights@);
                    assert(lv.subrange(0, lights@.len() as int) =~= lv);
                }
                let c1 = h.material.diffuse_color.scale(
                    fx_mul(h.material.albedo.x, diffuse_light_intensity),
                );
                let c2 = white().scale(h.material.albedo.y).scale(specular_light_intensity);
                let c3 = reflection_color.scale(h.material.albedo.z);
                c1.add(&c2).add(&c3)
            },
        }
    }
}

/// A ray whose origin lies outside a sphere (the segment to the center is
/// longer than the radius) and whose direction points away from it (the
/// projection of that segment on the direction is negative) misses it.
pub proof fn lemma_ray_pointing_away_misses(s: SphereV, r: RayV)
    requires
        dot_v(sub_v(s.center, r.origin), sub_v(s.center, r.origin)) > fx_mul_s(
            s.radius,
            s.radius,
        ),
        dot_v(sub_v(s.center, r.origin), r.direction) < 0,
    ensures
        sphere_hit(s, r) is None,
{
    let l = sub_v(s.center, r.origin);
    let adj = dot_v(l, r.direction);
    let ll = dot_v(l, l);
    let m = fx_mul_s(adj, adj);
    let d2 = fx_sub_s(ll, m);
    let r2 = fx_mul_s(s.radius, s.radius);
    if !(d2 > r2) {
        let v = fx_sub_s(r2, d2);
        let thc = fx_sqrt_s(v);
        assert(adj * adj >= 0) by (nonlinear_arith);
        lemma_div_trunc_bounds(adj * adj, SCALE as int);
        assert(m * (SCALE as int) <= adj * adj);
        assert(v >= 0);
        assert(v * (SCALE as int) <= (r2 - d2) * (SCALE as int));
        lemma_isqrt_bounds(v * (SCALE as int));
        assert(thc >= 0);
        assert(thc * thc <= v * (SCALE as int));
        let t1 = fx_add_s(adj, thc);
        if t1 >= 0 {
            assert(adj + thc >= 0);
            assert(thc * thc >= adj * adj) by (nonlinear_arith)
                requires
                    thc >= -adj,
                    adj < 0,
            ;
            if ll - m > FX_MAX as int {
                assert(r2 - d2 <= 0);
                assert(adj * adj > 0) by (nonlinear_arith)
                    requires
                        adj < 0,
                ;
            } else {
                assert(d2 >= ll - m);
                assert(adj * adj <= (r2 - ll + m) * (SCALE as int));
                assert((r2 - ll + m) * (SCALE as int) == (r2 - ll) * (SCALE as int) + m * (
                SCALE as int)) by (nonlinear_arith);
                assert((r2 - ll) * (SCALE as int) >= 0);
                assert(r2 - ll >= 0);
            }
        }
        assert(t1 < 0);
        assert(fx_sub_s(adj, thc) < 0);
    }
}

/// For a ray fired along the x axis at a sphere centered at the origin,
/// from outside it, the two roots of the quadratic differ by twice the
/// half-chord (the square root of the squared radius, the perpendicular
/// part being zero here), and the returned distance is the smaller,
/// nonnegative root. The bounds keep every intermediate value far from
/// saturation.
pub proof fn lemma_axis_ray_roots(ox: int, radius: int, m: MaterialV)
    requires
        0 < radius <= 1_000_000_000_000,
        -1_000_000_000_000 <= ox <= -radius,
    ensures
        ({
            let s = SphereV { center: V3i { x: 0, y: 0, z: 0 }, radius: radius, material: m };
            let r = RayV {
                origin: V3i { x: ox, y: 0, z: 0 },
                direction: V3i { x: SCALE as int, y: 0, z: 0 },
            };
            let r2 = fx_mul_s(radius, radius);
            let thc = fx_sqrt_s(fx_sub_s(r2, 0));
            &&& sphere_hit(s, r) == Some(fx_sub_s(-ox, thc))
            &&& fx_sub_s(-ox, thc) >= 0
            &&& fx_add_s(-ox, thc) - fx_sub_s(-ox, thc) == 2 * thc
        }),
{
    let s = SphereV { center: V3i { x: 0, y: 0, z: 0 }, radius: radius, material: m };
    let r = RayV {
        origin: V3i { x: ox, y: 0, z: 0 },
        direction: V3i { x: SCALE as int, y: 0, z: 0 },
    };
    let l = sub_v(s.center, r.origin);
    assert(l == (V3i { x: -ox, y: 0, z: 0 }));
    crate::fixed::lemma_fx_mul_one(-ox);
    vstd::arithmetic::div_mod::lemma_div_of0(SCALE as int);
    let adj = dot_v(l, r.direction);
    assert(adj == -ox);
    assert((-ox) * (-ox) <= 1_000_000_000_000_000_000_000_000int && (-ox) * (-ox) >= 0)
        by (nonlinear_arith)
        requires
            -1_000_000_000_000 <= ox < 0,
    ;
    lemma_div_trunc_bounds((-ox) * (-ox), SCALE as int);
    let q = div_trunc_s((-ox) * (-ox), SCALE as int);
    assert(q * (SCALE as int) <= 1_000_000_000_000_000_000int * (SCALE as int));
    let ll = dot_v(l, l);
    assert(ll == q);
    assert(fx_mul_s(adj, adj) == q);
    let d2 = fx_sub_s(ll, fx_mul_s(adj, adj));
    assert(d2 == 0);
    assert(radius * radius <= 1_000_000_000_000_000_000_000_000int && radius * radius >= 0)
        by (nonlinear_arith)
        requires
            0 < radius <= 1_000_000_000_000,
    ;
    lemma_div_trunc_bounds(radius * radius, SCALE as int);
    let qr = div_trunc_s(radius * radius, SCALE as int);
    assert(qr * (SCALE as int) <= 1_000_000_000_000_000_000int * (SCALE as int));
    let r2 = fx_mul_s(radius, radius);
    assert(r2 == qr);
    assert(!(d2 > r2));
    let v = fx_sub_s(r2, d2);
    assert(v == r2);
    lemma_isqrt_bounds(r2 * (SCALE as int));
    let thc = fx_sqrt_s(v);
    assert(thc * thc <= r2 * (SCALE as int));
    assert(r2 * (SCALE as int) <= radius * radius);
    assert(thc <= radius) by (nonlinear_arith)
        requires
            thc >= 0,
            radius > 0,
            thc * thc <= radius * radius,
    ;
    let t0 = fx_sub_s(adj, thc);
    let t1 = fx_add_s(adj, thc);
    assert(t0 == -ox - thc);
    assert(t1 == -ox + thc);
    assert(t0 >= 0);
}

/// When every one of the first `n` spheres misses the ray, there is no
/// best sphere candidate among them.
pub proof fn lemma_no_sphere_hit_upto(spheres: Seq<SphereV>, r: RayV, n: int)
    requires
        0 <= n <= spheres.len(),
        forall|i: int| 0 <= i < n ==> sphere_hit(spheres[i], r) is None,
    ensures
        best_sphere_upto(spheres, r, n) is None,
    decreases n,
{
    if n > 0 {
        lemma_no_sphere_hit_upto(spheres, r, n - 1);
    }
}

/// The best sphere candidate is the nearest: it is a real hit among the
/// first `n` spheres, no other of them is hit strictly closer, and every
/// earlier sphere is hit strictly farther (the first of equally near
/// spheres wins). When there is no candidate, every sphere misses.
pub proof fn lemma_best_sphere_is_nearest(spheres: Seq<SphereV>, r: RayV, n: int)
    requires
        0 <= n <= spheres.len(),
    ensures
        match best_sphere_upto(spheres, r, n) {
            None => forall|i: int| 0 <= i < n ==> sphere_hit(spheres[i], r) is None,
            Some(b) => {
                &&& 0 <= b.0 < n
                &&& sphere_hit(spheres[b.0], r) == Some(b.1)
                &&& forall|i: int|
                    0 <= i < n && sphere_hit(spheres[i], r) is Some ==> b.1 <= sphere_hit(
                        spheres[i],
                        r,
                    )->Some_0
                &&& forall|i: int|
                    0 <= i < b.0 && sphere_hit(spheres[i], r) is Some ==> b.1 < sphere_hit(
                        spheres[i],
                        r,
                    )->Some_0
            },
        },
    decreases n,
{
    if n > 0 {
        lemma_best_sphere_is_nearest(spheres, r, n - 1);
    }
}

/// A ray that misses every sphere and the bounded ground plane comes back
/// with the background color, at every depth.
pub proof fn lemma_miss_everything_gives_background(
    spheres: Seq<SphereV>,
    lights: Seq<LightV>,
    r: RayV,
    depth: nat,
)
    requires
        forall|i: int| 0 <= i < spheres.len() ==> sphere_hit(spheres[i], r) is None,
        plane_hit(r) is None,
    ensures
        cast_v(spheres, lights, r, depth) == background_v(),
{
    if depth <= 4 {
        lemma_no_sphere_hit_upto(spheres, r, spheres.len() as int);
        assert(resolve(spheres, r) is None);
    }
}

/// Beyond the recursion cap the caster returns exactly the background
/// color, whatever the scene holds.
pub proof fn lemma_depth_cap_gives_background(
    spheres: Seq<SphereV>,
    lights: Seq<LightV>,
    r: RayV,
    depth: nat,
)
    requires
        depth > 4,
    ensures
        cast_v(spheres, lights, r, depth) == background_v(),
{
}

/// The checkerboard tile color is a pure function of the parity of the
/// sum of the two tile indices: two points of equal parity share a color.
pub proof fn lemma_checker_color_from_parity(x1: int, z1: int, x2: int, z2: int)
    requires
        checker_odd(x1, z1) == checker_odd(x2, z2),
    ensures
        checker_color_v(x1, z1) == checker_color_v(x2, z2),
{
}

/// A light occluded at a point contributes nothing there: dropping it from
/// the scene leaves the accumulated diffuse and specular intensities
/// unchanged.
pub proof fn lemma_occluded_light_contributes_nothing(
    spheres: Seq<SphereV>,
    lights: Seq<LightV>,
    i: int,
    point: V3i,
    normal: V3i,
    dir: V3i,
    exp: nat,
)
    requires
        0 <= i < lights.len(),
        occluded_v(spheres, point, normal, lights[i]),
    ensures
        light_accum(spheres, lights, point, normal, dir, exp) == light_accum(
            spheres,
            lights.remove(i),
            point,
            normal,
            dir,
            exp,
        ),
    decreases lights.len(),
{
    if i == lights.len() - 1 {
        assert(lights.remove(i) =~= lights.drop_last());
    } else {
        let shorter = lights.drop_last();
        assert(lights.remove(i).last() == lights.last());
        assert(lights.remove(i).drop_last() =~= shorter.remove(i));
        assert(shorter[i] == lights[i]);
        lemma_occluded_light_contributes_nothing(spheres, shorter, i, point, normal, dir, exp);
    }
}

} // verus!
