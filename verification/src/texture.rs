//! Finding a tile's texels in the bytes of its image.

use vstd::prelude::*;
use crate::error::RenderError;
use crate::pixel::quad;
use crate::pixel::read_quad;
use crate::tile::Tile;
use crate::worldmap::Image;
use crate::worldmap::WorldMap;

verus! {

/// A tile's current frame, located in its image: `width` by `height`
/// texels, the first of them at byte `origin`, each row `pitch` bytes after
/// the one above.
#[derive(Clone, Copy, Debug, PartialEq, Eq, Structural)]
pub struct Patch {
    pub image: usize,
    pub origin: usize,
    pub width: usize,
    pub height: usize,
    pub pitch: u64,
}

impl Patch {
    /// Byte offset of the texel in column `u` and row `v` of the patch.
    pub open spec fn offset(&self, u: int, v: int) -> int {
        self.origin + u * 4 + v * self.pitch
    }

    /// The patch has texels, and all of them lie within `len` bytes.
    pub open spec fn fits(&self, len: int) -> bool {
        &&& self.width >= 1
        &&& self.height >= 1
        &&& self.offset(self.width - 1, self.height - 1) + 4 <= len
    }

    /// Every texel of a patch that fits lies within the image's bytes.
    pub proof fn lemma_texel_in_bounds(&self, len: int, u: int, v: int)
        requires
            self.fits(len),
            0 <= u < self.width,
            0 <= v < self.height,
        ensures
            0 <= self.offset(u, v),
            self.offset(u, v) + 4 <= len,
            0 <= v * self.pitch <= (self.height - 1) * self.pitch,
    {
        assert(v * self.pitch <= (self.height - 1) * self.pitch) by (nonlinear_arith)
            requires
                0 <= v <= self.height - 1,
                0 <= self.pitch,
        ;
        assert(0 <= v * self.pitch) by (nonlinear_arith)
            requires
                0 <= v,
                0 <= self.pitch,
        ;
    }

    /// Reads the texel in column `u` and row `v`.
    pub fn texel(&self, data: &[u8], u: usize, v: usize) -> (texel: [u8; 4])
        requires
            self.fits(data@.len() as int),
            u < self.width,
            v < self.height,
        ensures
            texel == quad(data@, self.offset(u as int, v as int)),
    {
        proof {
            self.lemma_texel_in_bounds(data@.len() as int, u as int, v as int);
        }
        let len: usize = data.len();
        let down: u64 = (v as u64) * self.pitch;
        read_quad(data, self.origin + u * 4 + down as usize)
    }
}

/// Byte offset, within its image, of the first texel of the frame that a
/// textured tile shows at animation step `anim_counter`. Frames lie side by
/// side, so each starts one frame's width of texels after the one before.
pub open spec fn frame_origin(tile: &Tile, anim_counter: usize) -> int
    recommends
        tile.texture.is_some(),
        tile.frames >= 1,
{
    let rect = tile.texture.unwrap().1;
    rect.0 + rect.2 * tile.spec_frame(anim_counter) * 4 + rect.1
}

/// Where `locate` finds a tile's current frame among `images`.
pub open spec fn spec_locate(images: Seq<Image>, tile: &Tile, anim_counter: usize) -> Result<
    Option<Patch>,
    RenderError,
> {
    if !tile.wf() {
        Err(RenderError::MalformedTile)
    } else if tile.texture.is_none() {
        Ok(None)
    } else {
        let (image, rect) = tile.texture.unwrap();
        if image >= images.len() {
            Err(RenderError::MissingImage)
        } else {
            let origin = frame_origin(tile, anim_counter);
            let pitch = images[image as int].1 * 4;
            if rect.2 >= 1 && rect.3 >= 1 && origin + (rect.2 - 1) * 4 + (rect.3 - 1) * pitch + 4
                <= images[image as int].0@.len() {
                Ok(
                    Some(
                        Patch {
                            image,
                            origin: origin as usize,
                            width: rect.2,
                            height: rect.3,
                            pitch: pitch as u64,
                        },
                    ),
                )
            } else {
                Err(RenderError::TextureOutOfBounds)
            }
        }
    }
}

impl WorldMap {
    /// Locates the frame that `tile` shows at animation step `anim_counter`.
    ///
    /// A flat tile has none. A tile that is malformed, names a missing
    /// image, or whose frame does not lie within its image is refused; a
    /// patch that is returned fits its image.
    pub fn locate(&self, tile: &Tile, anim_counter: usize) -> (found: Result<
        Option<Patch>,
        RenderError,
    >)
        ensures
            found == spec_locate(self.images(), tile, anim_counter),
            match found {
                Ok(Some(patch)) => {
                    &&& patch.image < self.images().len()
                    &&& patch.fits(self.images()[patch.image as int].0@.len() as int)
                },
                _ => true,
            },
    {
        if !tile.is_well_formed() {
            return Err(RenderError::MalformedTile);
        }
        match tile.texture {
            None => Ok(None),
            Some((image, rect)) => {
                match self.get_image(image) {
                    None => Err(RenderError::MissingImage),
                    Some(entry) => {
                        let frame: usize = tile.frame(anim_counter);
                        let len: usize = entry.0.len();
                        let pitch: u64 = entry.1 as u64 * 4;
                        if rect.2 < 1 || rect.3 < 1 {
                            return Err(RenderError::TextureOutOfBounds);
                        }
                        assert(rect.2 * frame * 4 <= 0xffff_ffff_ffff_ffff * 0x1_0000 * 4)
                            by (nonlinear_arith)
                            requires
                                0 <= rect.2 <= 0xffff_ffff_ffff_ffff,
                                0 <= frame < 0x1_0000,
                        ;
                        assert(0 <= rect.2 * frame * 4) by (nonlinear_arith)
                            requires
                                0 <= rect.2,
                                0 <= frame,
                        ;
                        assert(0 <= (rect.3 - 1) * pitch <= 0xffff_ffff_ffff_ffff * 0x4_0000_0000)
                            by (nonlinear_arith)
                            requires
                                1 <= rect.3 <= 0xffff_ffff_ffff_ffff,
                                0 <= pitch < 0x4_0000_0000,
                        ;
                        assert(rect.2 as u128 * frame as u128 == rect.2 * frame) by (nonlinear_arith)
                            requires
                                0 <= rect.2 <= 0xffff_ffff_ffff_ffff,
                                0 <= frame < 0x1_0000,
                        ;
                        let origin: u128 = rect.0 as u128 + (rect.2 as u128) * (frame as u128) * 4
                            + rect.1 as u128;
                        let last: u128 = origin + (rect.2 as u128 - 1) * 4 + (rect.3 as u128 - 1) * (
                        pitch as u128) + 4;
                        if last <= len as u128 {
                            Ok(
                                Some(
                                    Patch {
                                        image,
                                        origin: origin as usize,
                                        width: rect.2,
                                        height: rect.3,
                                        pitch,
                                    },
                                ),
                            )
                        } else {
                            Err(RenderError::TextureOutOfBounds)
                        }
                    },
                }
            },
        }
    }
}

} // verus!
