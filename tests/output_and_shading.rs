use raytracer::path::{bounce, Bounce};
use raytracer::ppm::{encode_ppm, push_decimal, Rgb8};
use raytracer::texture::texel_position;
use raytracer::Scene;

#[test]
fn decimal_forms() {
    for n in [0u32, 7, 10, 255, 1200, u32::MAX] {
        let mut out = Vec::new();
        push_decimal(&mut out, n);
        assert_eq!(String::from_utf8(out).unwrap(), n.to_string());
    }
}

#[test]
fn small_image_encoding() {
    let rows = vec![
        vec![Rgb8 { r: 255, g: 0, b: 7 }, Rgb8 { r: 10, g: 100, b: 200 }],
        vec![Rgb8 { r: 1, g: 2, b: 3 }, Rgb8 { r: 0, g: 0, b: 0 }],
    ];
    let bytes = encode_ppm(2, 2, &rows);
    assert_eq!(
        String::from_utf8(bytes).unwrap(),
        "P3\n2 2\n255\n255 0 7\n10 100 200\n1 2 3\n0 0 0\n"
    );
}

#[test]
fn empty_image_encoding() {
    let bytes = encode_ppm(0, 0, &Vec::new());
    assert_eq!(String::from_utf8(bytes).unwrap(), "P3\n0 0\n255\n");
}

#[test]
fn texel_rows_count_from_the_bottom() {
    assert_eq!(texel_position(10, 10, 3, 10), Some((3, 0)));
    assert_eq!(texel_position(10, 10, 3, 1), Some((3, 9)));
    assert_eq!(texel_position(4, 8, 0, 5), Some((0, 3)));
}

#[test]
fn texel_outside_the_image() {
    assert_eq!(texel_position(10, 10, 3, 0), None);
    assert_eq!(texel_position(10, 10, 10, 5), None);
    assert_eq!(texel_position(10, 10, 3, 11), None);
    assert_eq!(texel_position(0, 0, 0, 0), None);
}

#[test]
fn no_bounce_left_is_black() {
    assert_eq!(bounce(0), Bounce::Absorbed);
    assert_eq!(bounce(-3), Bounce::Absorbed);
    assert_eq!(bounce(i32::MIN), Bounce::Absorbed);
}

#[test]
fn bounces_count_down() {
    assert_eq!(bounce(1), Bounce::Trace { remaining: 0 });
    assert_eq!(bounce(50), Bounce::Trace { remaining: 49 });
    assert_eq!(bounce(i32::MAX), Bounce::Trace { remaining: i32::MAX - 1 });
}

#[test]
fn scenes_are_distinct() {
    assert_ne!(Scene::Spheres, Scene::Link);
    assert_eq!(Scene::Link.clone(), Scene::Link);
}
