//! Tiles: what a wall, a floor, a ceiling or a sprite is painted with.

use vstd::prelude::*;

verus! {

/// A rectangle inside an image, as byte offsets and texel counts:
/// `(x, y, width, height)`. `x` is the byte offset of the first texel within
/// its row and `y` the byte offset of that row within the image, so the
/// first texel sits at byte `x + y`; `width` and `height` count texels.
pub type TexRect = (usize, usize, usize, usize);

/// A surface: either one flat color or a rectangle of an image, which may
/// be the first of several frames laid out side by side.
#[derive(Clone, Copy, Debug, PartialEq)]
pub struct Tile {
    pub color: Option<[u8; 4]>,
    pub texture: Option<(usize, TexRect)>,
    pub frames: u16,
}

impl Tile {
    /// Exactly one of color and texture is set, and there is at least one
    /// frame.
    pub open spec fn wf(&self) -> bool {
        &&& self.color.is_some() != self.texture.is_some()
        &&& self.frames >= 1
    }

    /// Creates a tile for an image rectangle.
    pub fn textured(image_id: usize, rect: TexRect) -> (tile: Tile)
        ensures
            tile.color.is_none(),
            tile.texture == Some((image_id, rect)),
            tile.frames == 1,
            tile.wf(),
    {
        Tile { color: None, texture: Some((image_id, rect)), frames: 1 }
    }

    /// Creates a tile whose image holds `frames` frames side by side, the
    /// first of them at `rect`. The tile is well formed when `frames` is at
    /// least 1.
    pub fn textured_anim(image_id: usize, rect: TexRect, frames: u16) -> (tile: Tile)
        ensures
            tile.color.is_none(),
            tile.texture == Some((image_id, rect)),
            tile.frames == frames,
            tile.wf() == (frames >= 1),
    {
        Tile { color: None, texture: Some((image_id, rect)), frames }
    }

    /// Creates a tile of one flat color.
    pub fn colored(color: [u8; 4]) -> (tile: Tile)
        ensures
            tile.color == Some(color),
            tile.texture.is_none(),
            tile.frames == 1,
            tile.wf(),
    {
        Tile { color: Some(color), texture: None, frames: 1 }
    }

    /// Whether the tile is well formed.
    pub fn is_well_formed(&self) -> (ok: bool)
        ensures
            ok == self.wf(),
    {
        self.color.is_some() != self.texture.is_some() && self.frames >= 1
    }

    /// Width and height, in texels, of a well-formed tile that is drawn from
    /// a texture.
    pub open spec fn spec_texture_size(&self) -> Option<(usize, usize)> {
        if self.wf() && self.texture.is_some() {
            Some((self.texture.unwrap().1.2, self.texture.unwrap().1.3))
        } else {
            None
        }
    }

    /// Width and height, in texels, of a well-formed tile that is drawn from
    /// a texture; `None` for a flat tile and for a malformed one.
    pub fn texture_size(&self) -> (size: Option<(usize, usize)>)
        ensures
            size == self.spec_texture_size(),
    {
        if !self.is_well_formed() {
            return None;
        }
        match self.texture {
            Some((_, rect)) => Some((rect.2, rect.3)),
            None => None,
        }
    }

    /// The frame shown at animation step `anim_counter`: frames cycle in
    /// order.
    pub open spec fn spec_frame(&self, anim_counter: usize) -> int
        recommends
            self.frames >= 1,
    {
        anim_counter as int % self.frames as int
    }

    /// The frame shown at animation step `anim_counter`.
    pub fn frame(&self, anim_counter: usize) -> (frame: usize)
        requires
            self.frames >= 1,
        ensures
            frame == self.spec_frame(anim_counter),
            frame < self.frames,
    {
        anim_counter % (self.frames as usize)
    }
}

} // verus!
