use raycaster::scalar::Scalar;
use raycaster::sprite::Sprite;
use raycaster::tile::Tile;
use raycaster::worldmap::WorldMap;

fn s(v: f32) -> Scalar {
    Scalar::from_bits(v.to_bits())
}

#[test]
fn new_world_is_empty() {
    let world = WorldMap::new();
    assert!(!world.has_wall(0, 0));
    assert!(!world.has_floor(0, 0));
    assert!(!world.has_ceiling(0, 0));
    assert_eq!(world.get_wall(0, 0), None);
    assert_eq!(world.get_default_floor(), None);
    assert_eq!(world.get_default_ceiling(), None);
    assert_eq!(world.get_image(0), None);
    assert!(world.get_sprites().is_empty());
    assert_eq!(world.get_fog_color(), [0, 0, 0, 255]);
    assert_eq!(world.get_fog_distance().to_bits(), 6.0f32.to_bits());
    assert!(world.light_sources().is_empty());
    assert_eq!(world.get_light_level(0, 0), None);
}

#[test]
fn walls_are_found_where_they_were_set() {
    let mut world = WorldMap::new();
    let brick = Tile::textured(0, (0, 0, 24, 24));
    let door = Tile::colored([9, 8, 7, 255]);
    world.set_wall(3, -4, brick);
    world.set_wall(-1, 2, door);
    assert!(world.has_wall(3, -4));
    assert!(world.has_wall(-1, 2));
    assert!(!world.has_wall(-4, 3));
    assert!(!world.has_wall(3, 4));
    assert!(!world.has_wall(2, -1));
    assert_eq!(world.get_wall(3, -4), Some(&brick));
    assert_eq!(world.get_wall(-1, 2), Some(&door));
    assert_eq!(world.get_wall(0, 0), None);
    assert!(!world.has_floor(3, -4));
    assert!(!world.has_ceiling(3, -4));
}

#[test]
fn a_wall_set_twice_is_the_later_one() {
    let mut world = WorldMap::new();
    world.set_wall(1, 1, Tile::colored([1, 1, 1, 255]));
    world.set_wall(1, 1, Tile::colored([2, 2, 2, 255]));
    assert_eq!(world.get_wall(1, 1), Some(&Tile::colored([2, 2, 2, 255])));
}

#[test]
fn walls_at_the_edges_of_the_grid() {
    let mut world = WorldMap::new();
    world.set_wall(i32::MAX, i32::MIN, Tile::colored([1, 1, 1, 255]));
    assert!(world.has_wall(i32::MAX, i32::MIN));
    assert!(!world.has_wall(i32::MIN, i32::MAX));
}

#[test]
fn floors_and_ceilings_are_kept_apart() {
    let mut world = WorldMap::new();
    let floor = Tile::colored([50, 50, 50, 255]);
    let ceiling = Tile::colored([100, 100, 100, 255]);
    world.set_floor(2, 2, floor);
    world.set_ceiling(2, 3, ceiling);
    assert!(world.has_floor(2, 2));
    assert!(!world.has_floor(2, 3));
    assert!(world.has_ceiling(2, 3));
    assert!(!world.has_ceiling(2, 2));
    assert_eq!(world.get_floor(2, 2), Some(&floor));
    assert_eq!(world.get_floor(2, 3), None);
    assert_eq!(world.get_ceiling(2, 3), Some(&ceiling));
    assert_eq!(world.get_ceiling(2, 2), None);
    assert!(!world.has_wall(2, 2));
}

#[test]
fn default_tiles_are_kept() {
    let mut world = WorldMap::new();
    let floor = Tile::textured(0, (0, 0, 8, 8));
    let ceiling = Tile::colored([100, 100, 100, 255]);
    world.set_default_floor(floor);
    assert_eq!(world.get_default_floor(), Some(&floor));
    assert_eq!(world.get_default_ceiling(), None);
    world.set_default_ceiling(ceiling);
    assert_eq!(world.get_default_ceiling(), Some(&ceiling));
    assert_eq!(world.get_default_floor(), Some(&floor));
}

#[test]
fn images_are_numbered_in_order_and_read_back() {
    let mut world = WorldMap::new();
    let first = vec![1u8, 2, 3, 4, 5, 6, 7, 8];
    let second = vec![9u8; 16];
    let third: Vec<u8> = Vec::new();
    assert_eq!(world.add_image(first.clone(), 2, 1), 0);
    assert_eq!(world.add_image(second.clone(), 2, 2), 1);
    assert_eq!(world.add_image(third.clone(), 0, 0), 2);
    assert_eq!(world.get_image(0), Some(&(first, 2, 1)));
    assert_eq!(world.get_image(1), Some(&(second, 2, 2)));
    assert_eq!(world.get_image(2), Some(&(third, 0, 0)));
    assert_eq!(world.get_image(3), None);
    assert_eq!(world.get_image(usize::MAX), None);
}

#[test]
fn many_images_get_rising_indices() {
    let mut world = WorldMap::new();
    for i in 0..100usize {
        let data = vec![(i % 256) as u8; 4];
        assert_eq!(world.add_image(data, 1, 1), i);
    }
    for i in 0..100usize {
        assert_eq!(world.get_image(i), Some(&(vec![(i % 256) as u8; 4], 1, 1)));
    }
}

#[test]
fn sprites_are_kept_in_order() {
    let mut world = WorldMap::new();
    let bat = Sprite::new(s(7.0), s(7.0), Tile::textured_anim(0, (0, 0, 24, 24), 4));
    let torch = Sprite::new(s(4.1), s(6.1), Tile::textured_anim(0, (96, 0, 24, 24), 2));
    world.add_sprite(bat);
    world.add_sprite(torch);
    world.add_sprite(bat);
    assert_eq!(world.get_sprites().len(), 3);
    assert_eq!(world.get_sprites()[0], bat);
    assert_eq!(world.get_sprites()[1], torch);
    assert_eq!(world.get_sprites()[2], bat);
}

#[test]
fn fog_is_set() {
    let mut world = WorldMap::new();
    world.set_fog([10, 10, 10, 255], s(8.5));
    assert_eq!(world.get_fog_color(), [10, 10, 10, 255]);
    assert_eq!(world.get_fog_distance(), s(8.5));
}

#[test]
fn lights_are_listed_once_each() {
    let mut world = WorldMap::new();
    world.add_light(4, 6, 2);
    world.add_light(-3, 0, 5);
    world.add_light(4, 6, 7);
    world.add_light(0, 0, 0);
    assert_eq!(world.get_light(4, 6).map(|l| l.intensity), Some(7));
    assert_eq!(world.get_light(-3, 0).map(|l| l.intensity), Some(5));
    assert_eq!(world.get_light(6, 4), None);
    let mut sources = world.light_sources();
    sources.sort();
    assert_eq!(sources, vec![(-3, 0, 5), (0, 0, 0), (4, 6, 7)]);
}

#[test]
fn adding_a_light_leaves_the_light_map() {
    let mut world = WorldMap::new();
    world.set_light_level(1, 1, s(0.5));
    world.add_light(1, 1, 3);
    assert_eq!(world.get_light_level(1, 1), Some(s(0.5)));
}

#[test]
fn light_levels_are_kept_until_cleared() {
    let mut world = WorldMap::new();
    world.set_light_level(0, 0, s(1.0));
    world.set_light_level(0, 1, s(0.5));
    world.set_light_level(0, 1, s(0.75));
    assert_eq!(world.get_light_level(0, 0), Some(s(1.0)));
    assert_eq!(world.get_light_level(0, 1), Some(s(0.75)));
    assert_eq!(world.get_light_level(1, 0), None);
    world.clear_light_map();
    assert_eq!(world.get_light_level(0, 0), None);
    assert_eq!(world.get_light_level(0, 1), None);
}
