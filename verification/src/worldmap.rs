//! The world: sparse grids of tiles, the images they are cut from, sprites,
//! fog and lights.

use vstd::prelude::*;
use rustc_hash::FxHashMap;
use crate::grid::Cell;
use crate::grid::grid_get;
use crate::grid::grid_insert;
use crate::grid::grid_lights;
use crate::light::Light;
use crate::scalar::Scalar;
use crate::sprite::Sprite;
use crate::tile::Tile;

verus! {

/// An image: its bytes, four for each texel, row after row; its width and
/// its height in texels.
pub type Image = (Vec<u8>, u32, u32);

/// Bit pattern of `6.0`, the fog distance of a new world.
pub const DEFAULT_FOG_DISTANCE_BITS: u32 = 0x40c0_0000;

/// The world: what stands where, what it looks like, and how it is lit.
pub struct WorldMap {
    walls: FxHashMap<Cell, Tile>,
    floors: FxHashMap<Cell, Tile>,
    ceilings: FxHashMap<Cell, Tile>,
    images: Vec<Image>,
    sprites: Vec<Sprite>,
    ceiling_tile: Option<Tile>,
    floor_tile: Option<Tile>,
    fog_color: [u8; 4],
    fog_distance: Scalar,
    lights: FxHashMap<Cell, Light>,
    light_map: FxHashMap<Cell, Scalar>,
}

/// What a world holds, as contracts speak of it.
pub struct WorldView {
    /// The cells that hold a wall, each with its tile.
    pub walls: Map<Cell, Tile>,
    /// The cells with a floor tile of their own.
    pub floors: Map<Cell, Tile>,
    /// The cells with a ceiling tile of their own.
    pub ceilings: Map<Cell, Tile>,
    /// The images, in the order in which they were added.
    pub images: Seq<Image>,
    /// The sprites, in the order in which they were added.
    pub sprites: Seq<Sprite>,
    /// The ceiling tile of cells that have none of their own.
    pub default_ceiling: Option<Tile>,
    /// The floor tile of cells that have none of their own.
    pub default_floor: Option<Tile>,
    /// The color that distant surfaces fade to.
    pub fog_color: [u8; 4],
    /// The distance at which fog is complete.
    pub fog_distance: Scalar,
    /// The cells that hold a light, each with its light.
    pub lights: Map<Cell, Light>,
    /// Light levels by cell. This is a cache that callers rebuild from the
    /// lights; nothing keeps it up to date.
    pub light_map: Map<Cell, Scalar>,
}

impl View for WorldMap {
    type V = WorldView;

    closed spec fn view(&self) -> WorldView {
        WorldView {
            walls: self.walls@,
            floors: self.floors@,
            ceilings: self.ceilings@,
            images: self.images@,
            sprites: self.sprites@,
            default_ceiling: self.ceiling_tile,
            default_floor: self.floor_tile,
            fog_color: self.fog_color,
            fog_distance: self.fog_distance,
            lights: self.lights@,
            light_map: self.light_map@,
        }
    }
}

impl WorldMap {
    /// The cells that hold a wall, each with its tile.
    pub open spec fn walls(&self) -> Map<Cell, Tile> {
        self@.walls
    }

    /// The cells with a floor tile of their own.
    pub open spec fn floors(&self) -> Map<Cell, Tile> {
        self@.floors
    }

    /// The cells with a ceiling tile of their own.
    pub open spec fn ceilings(&self) -> Map<Cell, Tile> {
        self@.ceilings
    }

    /// The images, in the order in which they were added.
    pub open spec fn images(&self) -> Seq<Image> {
        self@.images
    }

    /// The sprites, in the order in which they were added.
    pub open spec fn sprites(&self) -> Seq<Sprite> {
        self@.sprites
    }

    /// The ceiling tile of cells that have none of their own.
    pub open spec fn default_ceiling(&self) -> Option<Tile> {
        self@.default_ceiling
    }

    /// The floor tile of cells that have none of their own.
    pub open spec fn default_floor(&self) -> Option<Tile> {
        self@.default_floor
    }

    /// The color that distant surfaces fade to.
    pub open spec fn fog_color(&self) -> [u8; 4] {
        self@.fog_color
    }

    /// The distance at which fog is complete.
    pub open spec fn fog_distance(&self) -> Scalar {
        self@.fog_distance
    }

    /// The cells that hold a light, each with its light.
    pub open spec fn lights(&self) -> Map<Cell, Light> {
        self@.lights
    }

    /// Light levels by cell.
    pub open spec fn light_map(&self) -> Map<Cell, Scalar> {
        self@.light_map
    }

    /// Whether a wall stands at the point `(x, y)` of the integer plane.
    /// Only cells whose coordinates are `i32` values can hold one.
    pub open spec fn wall_at(&self, x: int, y: int) -> bool {
        &&& i32::MIN <= x <= i32::MAX
        &&& i32::MIN <= y <= i32::MAX
        &&& self.walls().contains_key((x as i32, y as i32))
    }

    /// What `get_image` finds at `index`.
    pub open spec fn spec_get_image(&self, index: usize) -> Option<Image> {
        if index < self.images().len() {
            Some(self.images()[index as int])
        } else {
            None
        }
    }

    /// An empty world: no tiles, images, sprites or lights, and black fog
    /// that is complete at distance 6.
    pub fn new() -> (world: WorldMap)
        ensures
            world@.walls == Map::<Cell, Tile>::empty(),
            world@.floors == Map::<Cell, Tile>::empty(),
            world@.ceilings == Map::<Cell, Tile>::empty(),
            world@.images == Seq::<Image>::empty(),
            world@.sprites == Seq::<Sprite>::empty(),
            world@.default_ceiling.is_none(),
            world@.default_floor.is_none(),
            world@.fog_color@ == seq![0u8, 0u8, 0u8, 255u8],
            world@.fog_distance.bits == DEFAULT_FOG_DISTANCE_BITS,
            world@.lights == Map::<Cell, Light>::empty(),
            world@.light_map == Map::<Cell, Scalar>::empty(),
    {
        WorldMap {
            walls: FxHashMap::default(),
            floors: FxHashMap::default(),
            ceilings: FxHashMap::default(),
            images: Vec::new(),
            sprites: Vec::new(),
            ceiling_tile: None,
            floor_tile: None,
            fog_color: [0, 0, 0, 255],
            fog_distance: Scalar::from_bits(DEFAULT_FOG_DISTANCE_BITS),
            lights: FxHashMap::default(),
            light_map: FxHashMap::default(),
        }
    }

    /// Sets a wall at the given cell, in place of any that stood there.
    pub fn set_wall(&mut self, x: i32, y: i32, tile: Tile)
        ensures
            final(self)@ == (WorldView {
                walls: old(self)@.walls.insert((x, y), tile),
                ..old(self)@
            }),
    {
        grid_insert(&mut self.walls, x, y, tile);
    }

    /// Checks if there is a wall at the given cell.
    pub fn has_wall(&self, x: i32, y: i32) -> (found: bool)
        ensures
            found == self.walls().contains_key((x, y)),
            found == self.wall_at(x as int, y as int),
    {
        grid_get(&self.walls, x, y).is_some()
    }

    /// Gets the wall at the given cell.
    pub fn get_wall(&self, x: i32, y: i32) -> (tile: Option<&Tile>)
        ensures
            tile == (if self.walls().contains_key((x, y)) {
                Some(&self.walls()[(x, y)])
            } else {
                None
            }),
    {
        grid_get(&self.walls, x, y)
    }

    /// Sets the ceiling tile of cells that have none of their own.
    pub fn set_default_ceiling(&mut self, tile: Tile)
        ensures
            final(self)@ == (WorldView { default_ceiling: Some(tile), ..old(self)@ }),
    {
        self.ceiling_tile = Some(tile);
    }

    /// Gets the ceiling tile of cells that have none of their own.
    pub fn get_default_ceiling(&self) -> (tile: Option<&Tile>)
        ensures
            tile == (match self.default_ceiling() {
                Some(t) => Some(&t),
                None => None,
            }),
    {
        self.ceiling_tile.as_ref()
    }

    /// Sets a ceiling at the given cell.
    pub fn set_ceiling(&mut self, x: i32, y: i32, tile: Tile)
        ensures
            final(self)@ == (WorldView {
                ceilings: old(self)@.ceilings.insert((x, y), tile),
                ..old(self)@
            }),
    {
        grid_insert(&mut self.ceilings, x, y, tile);
    }

    /// Checks if there is a ceiling at the given cell.
    pub fn has_ceiling(&self, x: i32, y: i32) -> (found: bool)
        ensures
            found == self.ceilings().contains_key((x, y)),
    {
        grid_get(&self.ceilings, x, y).is_some()
    }

    /// Gets the ceiling at the given cell.
    pub fn get_ceiling(&self, x: i32, y: i32) -> (tile: Option<&Tile>)
        ensures
            tile == (if self.ceilings().contains_key((x, y)) {
                Some(&self.ceilings()[(x, y)])
            } else {
                None
            }),
    {
        grid_get(&self.ceilings, x, y)
    }

    /// Sets the floor tile of cells that have none of their own.
    pub fn set_default_floor(&mut self, tile: Tile)
        ensures
            final(self)@ == (WorldView { default_floor: Some(tile), ..old(self)@ }),
    {
        self.floor_tile = Some(tile);
    }

    /// Gets the floor tile of cells that have none of their own.
    pub fn get_default_floor(&self) -> (tile: Option<&Tile>)
        ensures
            tile == (match self.default_floor() {
                Some(t) => Some(&t),
                None => None,
            }),
    {
        self.floor_tile.as_ref()
    }

    /// Sets a floor at the given cell.
    pub fn set_floor(&mut self, x: i32, y: i32, tile: Tile)
        ensures
            final(self)@ == (WorldView {
                floors: old(self)@.floors.insert((x, y), tile),
                ..old(self)@
            }),
    {
        grid_insert(&mut self.floors, x, y, tile);
    }

    /// Checks if there is a floor at the given cell.
    pub fn has_floor(&self, x: i32, y: i32) -> (found: bool)
        ensures
            found == self.floors().contains_key((x, y)),
    {
        grid_get(&self.floors, x, y).is_some()
    }

    /// Gets the floor at the given cell.
    pub fn get_floor(&self, x: i32, y: i32) -> (tile: Option<&Tile>)
        ensures
            tile == (if self.floors().contains_key((x, y)) {
                Some(&self.floors()[(x, y)])
            } else {
                None
            }),
    {
        grid_get(&self.floors, x, y)
    }

    /// Adds an image after those already there and returns its index: the
    /// number of images added before it. Earlier images keep their indices.
    pub fn add_image(&mut self, data: Vec<u8>, width: u32, height: u32) -> (index: usize)
        ensures
            index == old(self).images().len(),
            final(self)@ == (WorldView {
                images: old(self)@.images.push((data, width, height)),
                ..old(self)@
            }),
            final(self).spec_get_image(index) == Some((data, width, height)),
            forall|i: usize|
                i < index ==> final(self).spec_get_image(i) == old(self).spec_get_image(i),
    {
        let index = self.images.len();
        self.images.push((data, width, height));
        index
    }

    /// Gets the image at the given index.
    pub fn get_image(&self, index: usize) -> (image: Option<&Image>)
        ensures
            image == (match self.spec_get_image(index) {
                Some(i) => Some(&i),
                None => None,
            }),
    {
        if index < self.images.len() {
            Some(&self.images[index])
        } else {
            None
        }
    }

    /// Adds a sprite after those already there.
    pub fn add_sprite(&mut self, sprite: Sprite)
        ensures
            final(self)@ == (WorldView { sprites: old(self)@.sprites.push(sprite), ..old(self)@ }),
    {
        self.sprites.push(sprite);
    }

    /// Sets the fog color and the distance at which fog is complete.
    pub fn set_fog(&mut self, color: [u8; 4], distance: Scalar)
        ensures
            final(self)@ == (WorldView { fog_color: color, fog_distance: distance, ..old(self)@ }),
    {
        self.fog_color = color;
        self.fog_distance = distance;
    }

    /// The sprites, in the order in which they were added.
    pub fn get_sprites(&self) -> (sprites: &Vec<Sprite>)
        ensures
            sprites@ == self.sprites(),
    {
        &self.sprites
    }

    /// The fog color.
    pub fn get_fog_color(&self) -> (color: [u8; 4])
        ensures
            color == self.fog_color(),
    {
        self.fog_color
    }

    /// The distance at which fog is complete.
    pub fn get_fog_distance(&self) -> (distance: Scalar)
        ensures
            distance == self.fog_distance(),
    {
        self.fog_distance
    }

    /// Puts a light at the given cell, in place of any that was there. The
    /// light map is left as it is.
    pub fn add_light(&mut self, x: i32, y: i32, intensity: i32)
        ensures
            final(self)@ == (WorldView {
                lights: old(self)@.lights.insert((x, y), Light { intensity }),
                ..old(self)@
            }),
    {
        let light = Light::new(intensity);
        grid_insert(&mut self.lights, x, y, light);
    }

    /// Gets the light at the given cell.
    pub fn get_light(&self, x: i32, y: i32) -> (light: Option<&Light>)
        ensures
            light == (if self.lights().contains_key((x, y)) {
                Some(&self.lights()[(x, y)])
            } else {
                None
            }),
    {
        grid_get(&self.lights, x, y)
    }

    /// `lights` lists the world's lights, each as `(x, y, intensity)`, each
    /// once.
    pub open spec fn lists_lights(&self, lights: Seq<(i32, i32, i32)>) -> bool {
        &&& forall|i: int|
            0 <= i < lights.len() ==> self.lights().contains_key((#[trigger] lights[i].0, lights[i].1))
                && self.lights()[(lights[i].0, lights[i].1)].intensity == lights[i].2
        &&& forall|cell: Cell| #[trigger]
            self.lights().contains_key(cell) ==> exists|i: int|
                0 <= i < lights.len() && (#[trigger] lights[i].0, lights[i].1) == cell
        &&& forall|i: int, j: int|
            0 <= i < j < lights.len() ==> (#[trigger] lights[i].0, lights[i].1) != (
                #[trigger] lights[j].0,
                lights[j].1,
            )
    }

    /// Lists the lights, each as `(x, y, intensity)`, in no particular
    /// order: two calls may list them differently.
    pub fn light_sources(&self) -> (lights: Vec<(i32, i32, i32)>)
        ensures
            self.lists_lights(lights@),
    {
        grid_lights(&self.lights)
    }

    /// Empties the light map.
    pub fn clear_light_map(&mut self)
        ensures
            final(self)@ == (WorldView { light_map: Map::<Cell, Scalar>::empty(), ..old(self)@ }),
    {
        self.light_map = FxHashMap::default();
    }

    /// Records the light level of a cell, in place of any recorded before.
    pub fn set_light_level(&mut self, x: i32, y: i32, level: Scalar)
        ensures
            final(self)@ == (WorldView {
                light_map: old(self)@.light_map.insert((x, y), level),
                ..old(self)@
            }),
    {
        grid_insert(&mut self.light_map, x, y, level);
    }

    /// The recorded light level of a cell.
    pub fn get_light_level(&self, x: i32, y: i32) -> (level: Option<Scalar>)
        ensures
            level == (if self.light_map().contains_key((x, y)) {
                Some(self.light_map()[(x, y)])
            } else {
                None
            }),
    {
        match grid_get(&self.light_map, x, y) {
            Some(level) => Some(*level),
            None => None,
        }
    }
}

/// Images are numbered in the order in which they are added, and reading
/// one back gives what was added: after an image is appended to the list it
/// is found at the index equal to the number of images before it, with its
/// bytes and dimensions, and every earlier index still finds its image.
pub proof fn lemma_image_round_trip(before: WorldMap, after: WorldMap, image: Image)
    requires
        before.images().len() <= usize::MAX,
        after.images() == before.images().push(image),
    ensures
        after.spec_get_image(before.images().len() as usize) == Some(image),
        after.images().len() == before.images().len() + 1,
        forall|i: usize|
            i < before.images().len() ==> after.spec_get_image(i) == before.spec_get_image(i),
{
}

} // verus!
