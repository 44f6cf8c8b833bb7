use tinytracer::light::Light;
use tinytracer::material::Material;
use tinytracer::shapes::{background_color, checker_color, tile_parity, white, Ray, Sphere};
use tinytracer::vector::Vec3f;
use tinytracer::SCALE;

fn matte(color: Vec3f) -> Material {
    // all weight on the diffuse term
    Material::new(color, Vec3f::new(SCALE, 0, 0), 50)
}

#[test]
fn ray_pointing_away_from_a_sphere_misses() {
    let s = Sphere::new(Vec3f::new(0, 0, 10 * SCALE), 2 * SCALE, matte(white()));
    let r = Ray::new(Vec3f::new(0, 0, 0), Vec3f::new(0, 0, -SCALE));
    assert_eq!(s.intersects_with_ray(&r), None);
}

#[test]
fn axis_ray_returns_the_near_root() {
    // sphere of radius 2 at the origin, ray from x = -10 along +x:
    // roots 8 and 12, the near one comes back
    let s = Sphere::new(Vec3f::new(0, 0, 0), 2 * SCALE, matte(white()));
    let r = Ray::new(Vec3f::new(-10 * SCALE, 0, 0), Vec3f::new(SCALE, 0, 0));
    assert_eq!(s.intersects_with_ray(&r), Some(8 * SCALE));
}

#[test]
fn ray_from_inside_returns_the_far_root() {
    // from the center, the near root is negative: the far one comes back
    let s = Sphere::new(Vec3f::new(0, 0, 0), 2 * SCALE, matte(white()));
    let r = Ray::new(Vec3f::new(0, 0, 0), Vec3f::new(SCALE, 0, 0));
    assert_eq!(s.intersects_with_ray(&r), Some(2 * SCALE));
}

#[test]
fn nearest_sphere_wins() {
    let far = Sphere::new(Vec3f::new(0, 0, -10 * SCALE), 2 * SCALE, matte(white()));
    let near = Sphere::new(Vec3f::new(0, 0, -5 * SCALE), SCALE, matte(background_color()));
    let spheres = vec![far, near];
    let r = Ray::new(Vec3f::new(0, 0, 0), Vec3f::new(0, 0, -SCALE));
    let hit = r.scene_intersections(&spheres).unwrap();
    assert_eq!(hit.point, Vec3f::new(0, 0, -4 * SCALE));
    assert_eq!(hit.normal, Vec3f::new(0, 0, SCALE));
    assert_eq!(hit.material, matte(background_color()));
}

#[test]
fn hits_beyond_the_horizon_do_not_count() {
    let s = Sphere::new(Vec3f::new(0, 0, -2000 * SCALE), 2 * SCALE, matte(white()));
    let spheres = vec![s];
    let r = Ray::new(Vec3f::new(0, 0, 0), Vec3f::new(0, 0, -SCALE));
    assert!(r.scene_intersections(&spheres).is_none());
    let lights: Vec<Light> = vec![];
    assert_eq!(r.cast(&spheres, &lights, 0), background_color());
}

#[test]
fn ground_plane_hit_straight_down() {
    let spheres: Vec<Sphere> = vec![];
    let r = Ray::new(Vec3f::new(0, 0, 0), Vec3f::new(0, -SCALE, 0));
    let hit = r.scene_intersections(&spheres).unwrap();
    assert_eq!(hit.point, Vec3f::new(0, -4 * SCALE, 0));
    assert_eq!(hit.normal, Vec3f::new(0, SCALE, 0));
    // the tile at the origin is the warm tan tone
    assert_eq!(hit.material.diffuse_color, Vec3f::new(300_000, 200_000, 100_000));
    assert_eq!(hit.material.albedo, Vec3f::new(SCALE, 0, 0));
}

#[test]
fn ground_plane_is_bounded() {
    let spheres: Vec<Sphere> = vec![];
    // straight down but eleven units off the x axis: outside the strip
    let r = Ray::new(Vec3f::new(11 * SCALE, 0, 0), Vec3f::new(0, -SCALE, 0));
    assert!(r.scene_intersections(&spheres).is_none());
    // and far down the negative z axis: behind the far edge
    let r2 = Ray::new(Vec3f::new(0, 0, -31 * SCALE), Vec3f::new(0, -SCALE, 0));
    assert!(r2.scene_intersections(&spheres).is_none());
}

#[test]
fn checkerboard_parity_samples() {
    // x = 0, z = 0: indices 1000 and 0, an even sum: the tan tone
    assert!(!tile_parity(0, 0));
    assert_eq!(checker_color(0, 0), Vec3f::new(300_000, 200_000, 100_000));
    // x = 2, z = 0: indices 1001 and 0, an odd sum: the grey tone
    assert!(tile_parity(2 * SCALE, 0));
    assert_eq!(checker_color(2 * SCALE, 0), Vec3f::new(300_000, 300_000, 300_000));
    // a negative z index keeps the parity rule: 1000 + (-1) is odd
    assert!(tile_parity(0, -2 * SCALE));
    assert_eq!(checker_color(0, -2 * SCALE), Vec3f::new(300_000, 300_000, 300_000));
}

#[test]
fn depth_cap_returns_the_background() {
    let s = Sphere::new(Vec3f::new(0, 0, -5 * SCALE), 2 * SCALE, matte(white()));
    let spheres = vec![s];
    let lights = vec![Light::new(Vec3f::new(0, 10 * SCALE, 0), 1_500_000)];
    let r = Ray::new(Vec3f::new(0, 0, 0), Vec3f::new(0, 0, -SCALE));
    assert_eq!(r.cast(&spheres, &lights, 5), background_color());
    assert_eq!(r.cast(&spheres, &lights, 6), background_color());
}

#[test]
fn missing_everything_returns_the_background() {
    let s = Sphere::new(Vec3f::new(0, 0, -5 * SCALE), 2 * SCALE, matte(white()));
    let spheres = vec![s];
    let lights = vec![Light::new(Vec3f::new(0, 10 * SCALE, 0), 1_500_000)];
    // the sphere lies behind this ray, and the ray is parallel to the plane
    let r = Ray::new(Vec3f::new(0, 0, 0), Vec3f::new(0, 0, SCALE));
    assert_eq!(r.cast(&spheres, &lights, 0), background_color());
}

#[test]
fn occluder_blocks_a_light_and_removing_it_restores_the_light() {
    let target = Sphere::new(
        Vec3f::new(0, 0, -10 * SCALE),
        2 * SCALE,
        matte(Vec3f::new(400_000, 400_000, 300_000)),
    );
    let occluder = Sphere::new(Vec3f::new(0, 4 * SCALE, -5 * SCALE), SCALE, matte(white()));
    let light = vec![Light::new(Vec3f::new(0, 8 * SCALE, -2 * SCALE), 1_500_000)];
    let r = Ray::new(Vec3f::new(0, 0, 0), Vec3f::new(0, 0, -SCALE));

    // with the occluder on the segment to the light, the hit is fully dark
    let shadowed = vec![target, occluder];
    assert_eq!(r.cast(&shadowed, &light, 0), Vec3f::new(0, 0, 0));

    // without it, the diffuse term comes through
    let open_scene = vec![target];
    assert_eq!(r.cast(&open_scene, &light, 0), Vec3f::new(360_000, 360_000, 270_000));
}

#[test]
fn mirror_bounce_composites_the_background() {
    // a sphere with only a reflection weight of 0.8: the bounced ray
    // escapes to the background, which comes back scaled by the weight
    let s = Sphere::new(
        Vec3f::new(0, 0, -5 * SCALE),
        2 * SCALE,
        Material::new(white(), Vec3f::new(0, 0, 800_000), 1425),
    );
    let spheres = vec![s];
    let lights: Vec<Light> = vec![];
    let r = Ray::new(Vec3f::new(0, 0, 0), Vec3f::new(0, 0, -SCALE));
    assert_eq!(r.cast(&spheres, &lights, 0), Vec3f::new(480_000, 320_000, 320_000));
}

#[test]
fn single_sphere_scene_end_to_end() {
    let s = Sphere::new(
        Vec3f::new(0, 0, -5 * SCALE),
        2 * SCALE,
        matte(Vec3f::new(400_000, 400_000, 300_000)),
    );
    let spheres = vec![s];
    let lights = vec![Light::new(Vec3f::new(0, 0, 0), 1_500_000)];

    // aimed at the center: hit at distance three, normal along +z
    let aimed = Ray::new(Vec3f::new(0, 0, 0), Vec3f::new(0, 0, -SCALE));
    assert_eq!(aimed.scene_intersections(&spheres).unwrap().point, Vec3f::new(0, 0, -3 * SCALE));
    assert_eq!(aimed.scene_intersections(&spheres).unwrap().normal, Vec3f::new(0, 0, SCALE));
    // the light sits on the ray origin: a strong diffuse term, one tick of
    // rounding below 1.5 per unit of color
    assert_eq!(aimed.cast(&spheres, &lights, 0), Vec3f::new(599_999, 599_999, 449_999));

    // aimed the other way: exactly the background
    let away = Ray::new(Vec3f::new(0, 0, 0), Vec3f::new(0, 0, SCALE));
    assert_eq!(away.cast(&spheres, &lights, 0), background_color());
}
