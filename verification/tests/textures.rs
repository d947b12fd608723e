use raycaster::column::clamp_index;
use raycaster::column::Surface;
use raycaster::error::RenderError;
use raycaster::pixel::read_quad;
use raycaster::pixel::write_quad;
use raycaster::texture::Patch;
use raycaster::tile::Tile;
use raycaster::worldmap::WorldMap;

/// An image of `width` by `height` texels in which the texel in column `u`
/// and row `v` is `[u, v, 7, 255]`.
fn atlas(width: usize, height: usize) -> Vec<u8> {
    let mut data = Vec::new();
    for v in 0..height {
        for u in 0..width {
            data.extend_from_slice(&[u as u8, v as u8, 7, 255]);
        }
    }
    data
}

fn world_with_atlas() -> WorldMap {
    let mut world = WorldMap::new();
    assert_eq!(world.add_image(atlas(8, 4), 8, 4), 0);
    world
}

#[test]
fn quads_are_read_and_written_in_place() {
    let mut bytes = vec![0u8, 1, 2, 3, 4, 5, 6, 7, 8, 9];
    assert_eq!(read_quad(&bytes, 0), [0, 1, 2, 3]);
    assert_eq!(read_quad(&bytes, 3), [3, 4, 5, 6]);
    assert_eq!(read_quad(&bytes, 6), [6, 7, 8, 9]);
    write_quad(&mut bytes, 5, [50, 60, 70, 80]);
    assert_eq!(bytes, vec![0, 1, 2, 3, 4, 50, 60, 70, 80, 9]);
}

#[test]
fn tile_is_located_in_its_image() {
    let world = world_with_atlas();
    let tile = Tile::textured(0, (8, 32, 2, 2));
    let patch = world.locate(&tile, 0).unwrap().unwrap();
    assert_eq!(patch, Patch { image: 0, origin: 40, width: 2, height: 2, pitch: 32 });
    let image = world.get_image(0).unwrap();
    assert_eq!(patch.texel(&image.0, 0, 0), [2, 1, 7, 255]);
    assert_eq!(patch.texel(&image.0, 1, 0), [3, 1, 7, 255]);
    assert_eq!(patch.texel(&image.0, 0, 1), [2, 2, 7, 255]);
    assert_eq!(patch.texel(&image.0, 1, 1), [3, 2, 7, 255]);
}

#[test]
fn whole_image_is_a_patch() {
    let world = world_with_atlas();
    let tile = Tile::textured(0, (0, 0, 8, 4));
    let patch = world.locate(&tile, 0).unwrap().unwrap();
    assert_eq!(patch, Patch { image: 0, origin: 0, width: 8, height: 4, pitch: 32 });
    let image = world.get_image(0).unwrap();
    assert_eq!(patch.texel(&image.0, 7, 3), [7, 3, 7, 255]);
}

#[test]
fn animated_tile_is_located_at_its_current_frame() {
    let world = world_with_atlas();
    let tile = Tile::textured_anim(0, (0, 32, 2, 2), 3);
    assert_eq!(world.locate(&tile, 0).unwrap().unwrap().origin, 32);
    assert_eq!(world.locate(&tile, 1).unwrap().unwrap().origin, 40);
    assert_eq!(world.locate(&tile, 2).unwrap().unwrap().origin, 48);
    assert_eq!(world.locate(&tile, 3).unwrap().unwrap().origin, 32);
    assert_eq!(world.locate(&tile, 4).unwrap().unwrap().origin, 40);
    let patch = world.locate(&tile, 5).unwrap().unwrap();
    let image = world.get_image(0).unwrap();
    assert_eq!(patch.texel(&image.0, 0, 0), [4, 1, 7, 255]);
    assert_eq!(patch.texel(&image.0, 1, 1), [5, 2, 7, 255]);
}

#[test]
fn flat_tile_has_no_patch() {
    let world = world_with_atlas();
    assert_eq!(world.locate(&Tile::colored([1, 2, 3, 4]), 9), Ok(None));
}

#[test]
fn malformed_tile_is_refused() {
    let world = world_with_atlas();
    let neither = Tile { color: None, texture: None, frames: 1 };
    let both = Tile { color: Some([0, 0, 0, 255]), texture: Some((0, (0, 0, 1, 1))), frames: 1 };
    let frameless = Tile::textured_anim(0, (0, 0, 1, 1), 0);
    assert_eq!(world.locate(&neither, 0), Err(RenderError::MalformedTile));
    assert_eq!(world.locate(&both, 0), Err(RenderError::MalformedTile));
    assert_eq!(world.locate(&frameless, 0), Err(RenderError::MalformedTile));
}

#[test]
fn tile_of_a_missing_image_is_refused() {
    let world = world_with_atlas();
    assert_eq!(
        world.locate(&Tile::textured(1, (0, 0, 1, 1)), 0),
        Err(RenderError::MissingImage)
    );
    assert_eq!(
        WorldMap::new().locate(&Tile::textured(0, (0, 0, 1, 1)), 0),
        Err(RenderError::MissingImage)
    );
}

#[test]
fn tile_beyond_its_image_is_refused() {
    let world = world_with_atlas();
    let refused = [
        (0, 0, 9, 4),
        (0, 0, 8, 5),
        (4, 0, 8, 4),
        (0, 32, 8, 4),
        (0, 0, 0, 4),
        (0, 0, 8, 0),
        (128, 0, 1, 1),
        (usize::MAX, usize::MAX, usize::MAX, usize::MAX),
    ];
    for rect in refused {
        assert_eq!(
            world.locate(&Tile::textured(0, rect), 0),
            Err(RenderError::TextureOutOfBounds),
            "{:?}",
            rect
        );
    }
    assert!(world.locate(&Tile::textured(0, (124, 0, 1, 1)), 0).is_ok());
    assert!(world.locate(&Tile::textured(0, (28, 96, 1, 1)), 0).is_ok());
}

#[test]
fn frame_beyond_the_image_is_refused_when_it_is_shown() {
    let world = world_with_atlas();
    let tile = Tile::textured_anim(0, (0, 96, 4, 1), 3);
    assert!(world.locate(&tile, 0).is_ok());
    assert!(world.locate(&tile, 1).is_ok());
    assert_eq!(world.locate(&tile, 2), Err(RenderError::TextureOutOfBounds));
    assert!(world.locate(&tile, 3).is_ok());
}

#[test]
fn surfaces_are_bare_flat_or_textured() {
    let world = world_with_atlas();
    assert_eq!(world.surface(None, 0), Ok(Surface::Bare));
    assert_eq!(
        world.surface(Some(&Tile::colored([5, 6, 7, 8])), 0),
        Ok(Surface::Flat([5, 6, 7, 8]))
    );
    assert_eq!(
        world.surface(Some(&Tile::textured(0, (0, 0, 2, 2))), 0),
        Ok(Surface::Textured(Patch { image: 0, origin: 0, width: 2, height: 2, pitch: 32 }))
    );
    assert_eq!(
        world.surface(Some(&Tile::textured(4, (0, 0, 2, 2))), 0),
        Err(RenderError::MissingImage)
    );
}

#[test]
fn coordinates_beyond_a_patch_are_brought_back() {
    assert_eq!(clamp_index(0, 4), 0);
    assert_eq!(clamp_index(3, 4), 3);
    assert_eq!(clamp_index(4, 4), 3);
    assert_eq!(clamp_index(usize::MAX, 4), 3);
    assert_eq!(clamp_index(9, 1), 0);
    let world = world_with_atlas();
    let patch = world.locate(&Tile::textured(0, (8, 32, 2, 2)), 0).unwrap().unwrap();
    assert_eq!(world.clamped_texel(&patch, 0, 0), [2, 1, 7, 255]);
    assert_eq!(world.clamped_texel(&patch, 1, 1), [3, 2, 7, 255]);
    assert_eq!(world.clamped_texel(&patch, 2, 0), [3, 1, 7, 255]);
    assert_eq!(world.clamped_texel(&patch, 0, 9), [2, 2, 7, 255]);
    assert_eq!(world.clamped_texel(&patch, usize::MAX, usize::MAX), [3, 2, 7, 255]);
}
