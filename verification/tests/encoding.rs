use tinytracer::canvas::{channel_byte, Canvas};
use tinytracer::light::Light;
use tinytracer::render::render;
use tinytracer::shapes::Sphere;
use tinytracer::vector::Vec3f;
use tinytracer::SCALE;

#[test]
fn channel_bytes_clamp_scale_and_truncate() {
    assert_eq!(channel_byte(0), 0);
    assert_eq!(channel_byte(-5 * SCALE), 0);
    assert_eq!(channel_byte(SCALE), 255);
    assert_eq!(channel_byte(2 * SCALE), 255);
    // 0.5 scales to 127.5 and truncates
    assert_eq!(channel_byte(500_000), 127);
    assert_eq!(channel_byte(600_000), 153);
    assert_eq!(channel_byte(400_000), 102);
}

#[test]
fn zero_canvas_round_trip() {
    let canvas = Canvas::new(3, 2);
    let bytes = canvas.encode();
    let header = b"P6\n3 2\n255\n";
    assert_eq!(&bytes[..header.len()], header);
    assert_eq!(bytes.len(), header.len() + 3 * 2 * 3);
    for b in &bytes[header.len()..] {
        assert_eq!(*b, 0u8);
    }
}

#[test]
fn set_pixels_come_back_in_the_encoding() {
    let mut canvas = Canvas::new(2, 1);
    canvas.set(0, 0, Vec3f::new(500_000, -100, 2 * SCALE));
    canvas.set(1, 0, Vec3f::new(SCALE, 0, 600_000));
    assert_eq!(canvas.get(0, 0), Vec3f::new(500_000, -100, 2 * SCALE));
    let bytes = canvas.encode();
    let header = b"P6\n2 1\n255\n";
    assert_eq!(&bytes[..header.len()], header);
    assert_eq!(&bytes[header.len()..], &[127, 0, 255, 255, 0, 153]);
}

#[test]
fn header_widths_with_several_digits() {
    let canvas = Canvas::new(120, 45);
    let bytes = canvas.encode();
    let header = b"P6\n120 45\n255\n";
    assert_eq!(&bytes[..header.len()], header);
    assert_eq!(bytes.len(), header.len() + 120 * 45 * 3);
}

#[test]
fn render_empty_scene_rows() {
    let spheres: Vec<Sphere> = vec![];
    let lights: Vec<Light> = vec![];
    // two by two pixels, focal length of one unit: the upper row looks up
    // past the plane into the background, the lower row hits the unlit
    // ground and stays black
    let canvas = render(&spheres, &lights, 2, 2, SCALE);
    assert_eq!(canvas.get(0, 0), Vec3f::new(600_000, 400_000, 400_000));
    assert_eq!(canvas.get(1, 0), Vec3f::new(600_000, 400_000, 400_000));
    assert_eq!(canvas.get(0, 1), Vec3f::new(0, 0, 0));
    assert_eq!(canvas.get(1, 1), Vec3f::new(0, 0, 0));
}

#[test]
fn render_single_pixel_at_a_sphere() {
    // a mirror-less sphere dead ahead fills the whole one-pixel image;
    // without lights its local terms are zero, so the pixel is black,
    // which distinguishes it from the background
    let spheres = vec![
        Sphere::new(
            Vec3f::new(0, 0, -5 * SCALE),
            2 * SCALE,
            tinytracer::material::Material::new(
                Vec3f::new(400_000, 400_000, 300_000),
                Vec3f::new(SCALE, 0, 0),
                50,
            ),
        ),
    ];
    let lights: Vec<Light> = vec![];
    let canvas = render(&spheres, &lights, 1, 1, SCALE);
    assert_eq!(canvas.get(0, 0), Vec3f::new(0, 0, 0));
}
