use raycaster::fog::fog_is_clear;
use raycaster::fog::fog_is_solid;
use raycaster::fog::shade;
use raycaster::scalar::Scalar;

fn s(v: f32) -> Scalar {
    Scalar::from_bits(v.to_bits())
}

/// The linear blend of two colors, channel by channel, in the range 0 to 1.
fn mix_color(a: [u8; 4], b: [u8; 4], mix: Scalar) -> [u8; 4] {
    let v = f32::from_bits(mix.to_bits());
    [
        (((1.0 - v) * (a[0] as f32 / 255.0) + b[0] as f32 / 255.0 * v) * 255.0) as u8,
        (((1.0 - v) * (a[1] as f32 / 255.0) + b[1] as f32 / 255.0 * v) * 255.0) as u8,
        (((1.0 - v) * (a[2] as f32 / 255.0) + b[2] as f32 / 255.0 * v) * 255.0) as u8,
        255,
    ]
}

fn never(_: [u8; 4], _: [u8; 4], _: Scalar) -> [u8; 4] {
    panic!("the blend is not to be called at the ends of the range")
}

const SOURCE: [u8; 4] = [200, 100, 0, 17];
const FOG: [u8; 4] = [10, 20, 250, 99];

#[test]
fn no_fog_leaves_the_color() {
    for mix in [0.0f32, -0.0, -0.5, -1.0e30, f32::NEG_INFINITY] {
        assert_eq!(shade(SOURCE, FOG, s(mix), &never), SOURCE, "{}", mix);
        assert!(fog_is_clear(s(mix)));
        assert!(!fog_is_solid(s(mix)));
    }
}

#[test]
fn full_fog_gives_the_fog_color() {
    for mix in [1.0f32, 1.0000001, 2.0, 1.0e30, f32::INFINITY] {
        assert_eq!(shade(SOURCE, FOG, s(mix), &never), FOG, "{}", mix);
        assert!(fog_is_solid(s(mix)));
        assert!(!fog_is_clear(s(mix)));
    }
}

#[test]
fn half_fog_gives_the_midpoint() {
    let out = shade(SOURCE, FOG, s(0.5), &mix_color);
    for k in 0..3 {
        let mid = (SOURCE[k] as i32 + FOG[k] as i32) / 2;
        assert!((out[k] as i32 - mid).abs() <= 1, "channel {}: {} and {}", k, out[k], mid);
    }
    assert_eq!(out[3], 255);
}

#[test]
fn partial_fog_is_what_the_blend_gives() {
    for mix in [1.0e-30f32, 0.25, 0.5, 0.75, 0.99999994] {
        assert_eq!(
            shade(SOURCE, FOG, s(mix), &mix_color),
            mix_color(SOURCE, FOG, s(mix)),
            "{}",
            mix
        );
        assert!(!fog_is_clear(s(mix)));
        assert!(!fog_is_solid(s(mix)));
    }
    let marker = |_: [u8; 4], _: [u8; 4], m: Scalar| [1, 2, 3, (m.to_bits() >> 24) as u8];
    assert_eq!(shade(SOURCE, FOG, s(0.25), &marker), [1, 2, 3, 0x3e]);
}

#[test]
fn blend_gets_the_color_then_the_fog_color() {
    let first = |a: [u8; 4], _: [u8; 4], _: Scalar| a;
    let second = |_: [u8; 4], b: [u8; 4], _: Scalar| b;
    assert_eq!(shade(SOURCE, FOG, s(0.5), &first), SOURCE);
    assert_eq!(shade(SOURCE, FOG, s(0.5), &second), FOG);
}

#[test]
fn weight_that_is_no_number_is_left_to_the_blend() {
    let marker = |_: [u8; 4], _: [u8; 4], _: Scalar| [9, 9, 9, 9];
    assert_eq!(shade(SOURCE, FOG, s(f32::NAN), &marker), [9, 9, 9, 9]);
    assert!(!fog_is_clear(s(f32::NAN)));
    assert!(!fog_is_solid(s(f32::NAN)));
}
