use raycaster::light::Light;
use raycaster::math::vec2;
use raycaster::scalar::Scalar;
use raycaster::sprite::Sprite;
use raycaster::tile::Tile;
use raycaster::WidgetKey;

#[test]
fn colored_tile_is_flat() {
    let tile = Tile::colored([1, 2, 3, 255]);
    assert_eq!(tile.color, Some([1, 2, 3, 255]));
    assert_eq!(tile.texture, None);
    assert_eq!(tile.frames, 1);
    assert!(tile.is_well_formed());
}

#[test]
fn textured_tile_has_one_frame() {
    let tile = Tile::textured(3, (8, 64, 24, 24));
    assert_eq!(tile.color, None);
    assert_eq!(tile.texture, Some((3, (8, 64, 24, 24))));
    assert_eq!(tile.frames, 1);
    assert!(tile.is_well_formed());
    assert_eq!(tile.frame(0), 0);
    assert_eq!(tile.frame(7), 0);
}

#[test]
fn animated_tile_cycles_through_its_frames() {
    let tile = Tile::textured_anim(0, (0, 0, 24, 24), 4);
    assert_eq!(tile.texture, Some((0, (0, 0, 24, 24))));
    assert_eq!(tile.frames, 4);
    assert!(tile.is_well_formed());
    assert_eq!(tile.frame(0), 0);
    assert_eq!(tile.frame(1), 1);
    assert_eq!(tile.frame(3), 3);
    assert_eq!(tile.frame(4), 0);
    assert_eq!(tile.frame(10), 2);
    assert_eq!(tile.frame(usize::MAX), usize::MAX % 4);
}

#[test]
fn tile_without_a_frame_is_malformed() {
    assert!(!Tile::textured_anim(0, (0, 0, 24, 24), 0).is_well_formed());
}

#[test]
fn tile_with_neither_or_both_is_malformed() {
    let neither = Tile { color: None, texture: None, frames: 1 };
    let both = Tile { color: Some([0, 0, 0, 255]), texture: Some((0, (0, 0, 1, 1))), frames: 1 };
    assert!(!neither.is_well_formed());
    assert!(!both.is_well_formed());
}

#[test]
fn only_well_formed_textured_tiles_have_a_texture_size() {
    assert_eq!(Tile::textured(0, (8, 16, 24, 12)).texture_size(), Some((24, 12)));
    assert_eq!(Tile::textured_anim(0, (8, 16, 24, 12), 3).texture_size(), Some((24, 12)));
    assert_eq!(Tile::textured_anim(0, (8, 16, 24, 12), 0).texture_size(), None);
    assert_eq!(Tile::colored([1, 2, 3, 4]).texture_size(), None);
    let both = Tile { color: Some([0, 0, 0, 255]), texture: Some((0, (0, 0, 1, 1))), frames: 1 };
    assert_eq!(both.texture_size(), None);
}

#[test]
fn light_keeps_its_intensity() {
    assert_eq!(Light::new(3).intensity, 3);
    assert_eq!(Light::new(-2), Light { intensity: -2 });
}

#[test]
fn sprite_starts_unshrunk_and_unmoved() {
    let x = Scalar::from_bits(7.0f32.to_bits());
    let y = Scalar::from_bits(4.5f32.to_bits());
    let tile = Tile::textured_anim(0, (0, 0, 24, 24), 4);
    let sprite = Sprite::new(x, y, tile);
    assert_eq!(sprite.x, x);
    assert_eq!(sprite.y, y);
    assert_eq!(sprite.tile, tile);
    assert_eq!(sprite.shrink, 1);
    assert_eq!(sprite.move_y.to_bits(), 0.0f32.to_bits());
    assert_eq!(sprite.distance.to_bits(), 0.0f32.to_bits());
}

#[test]
fn vectors_keep_their_components() {
    let v = vec2::new(Scalar::from_bits(1), Scalar::from_bits(2));
    assert_eq!(v.x.to_bits(), 1);
    assert_eq!(v.y.to_bits(), 2);
    let z = vec2::zero();
    assert_eq!(z.x.to_bits(), 0.0f32.to_bits());
    assert_eq!(z.y.to_bits(), 0.0f32.to_bits());
}

#[test]
fn widget_keys_compare() {
    assert_eq!(WidgetKey::Escape, WidgetKey::Escape);
    assert_ne!(WidgetKey::Up, WidgetKey::Down);
    let key = WidgetKey::Tab;
    let copy = key;
    assert_eq!(key, copy);
    assert!(format!("{:?}", WidgetKey::Return).contains("Return"));
}
