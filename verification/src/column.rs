//! Drawing one column of the screen.
//!
//! A column is a buffer of `height` pixels, the top one first. It is drawn
//! in three passes, each over what the one before has left: the backdrop of
//! ceiling and floor, the stripe of the wall that the column's ray has met,
//! and the stripes of the sprites that show in the column. The caller
//! supplies what depends on distances: texel coordinates of the backdrop and
//! of the wall, projected sizes, depths and fog weights.

use vstd::prelude::*;
use crate::error::RenderError;
use crate::fog::blends_all;
use crate::fog::fogged;
use crate::fog::shade;
use crate::math::vec2;
use crate::pixel::pixel;
use crate::pixel::quad;
use crate::pixel::write_quad;
use crate::ray::Axis;
use crate::scalar::Scalar;
use crate::span::clip_span;
use crate::span::in_span;
use crate::span::spec_vertical_span;
use crate::span::sprite_tex_u;
use crate::span::sprite_tex_v;
use crate::span::sprite_texel_column;
use crate::span::sprite_texel_row;
use crate::span::vertical_span;
use crate::texture::Patch;
use crate::texture::spec_locate;
use crate::tile::Tile;
use crate::worldmap::Image;
use crate::worldmap::WorldMap;

verus! {

/// What the floor or the ceiling is painted with, once its tile is looked
/// up.
#[derive(Clone, Copy, Debug, PartialEq)]
pub enum Surface {
    /// No tile: the surface shows the background color.
    Bare,
    /// One color everywhere.
    Flat([u8; 4]),
    /// The texels of a patch.
    Textured(Patch),
}

/// What the caller has computed for one row below the horizon and for the
/// row that mirrors it above: where in a cell the row's floor point lies,
/// scaled to the floor's and to the ceiling's texture, and the fog weight at
/// the row's distance.
#[derive(Clone, Copy, Debug, PartialEq)]
pub struct RowSample {
    pub floor_u: usize,
    pub floor_v: usize,
    pub ceiling_u: usize,
    pub ceiling_v: usize,
    pub mix: Scalar,
}

/// `n`, or the last index of `size` items where `n` lies beyond it.
pub open spec fn clamp_to(n: int, size: int) -> int {
    if n >= size {
        size - 1
    } else {
        n
    }
}

/// `n`, or the last index of `size` items where `n` lies beyond it.
pub fn clamp_index(n: usize, size: usize) -> (index: usize)
    requires
        size >= 1,
    ensures
        index == clamp_to(n as int, size as int),
        index < size,
{
    if n >= size {
        size - 1
    } else {
        n
    }
}

/// The surface that an optional tile stands for at animation step
/// `anim_counter`, or why the tile cannot be drawn.
pub open spec fn spec_surface(images: Seq<Image>, tile: Option<Tile>, anim_counter: usize) -> Result<
    Surface,
    RenderError,
> {
    match tile {
        None => Ok(Surface::Bare),
        Some(t) => match spec_locate(images, &t, anim_counter) {
            Err(e) => Err(e),
            Ok(None) => Ok(Surface::Flat(t.color.unwrap())),
            Ok(Some(patch)) => Ok(Surface::Textured(patch)),
        },
    }
}

/// The bytes of the image that a patch lies in.
pub open spec fn patch_bytes(images: Seq<Image>, patch: Patch) -> Seq<u8> {
    images[patch.image as int].0@
}

/// The patch lies in one of the images and fits it.
pub open spec fn patch_ok(images: Seq<Image>, patch: Patch) -> bool {
    &&& patch.image < images.len()
    &&& patch.fits(patch_bytes(images, patch).len() as int)
}

/// The texel of a patch at `(u, v)`, each coordinate brought back to the
/// patch's last column or row where it lies beyond.
pub open spec fn clamped_texel(images: Seq<Image>, patch: Patch, u: usize, v: usize) -> [u8; 4] {
    quad(
        patch_bytes(images, patch),
        patch.offset(clamp_to(u as int, patch.width as int), clamp_to(v as int, patch.height as int)),
    )
}

impl WorldMap {
    /// Looks up what an optional tile is painted with.
    pub fn surface(&self, tile: Option<&Tile>, anim_counter: usize) -> (found: Result<
        Surface,
        RenderError,
    >)
        ensures
            found == spec_surface(
                self.images(),
                match tile {
                    Some(t) => Some(*t),
                    None => None,
                },
                anim_counter,
            ),
            match found {
                Ok(Surface::Textured(patch)) => patch_ok(self.images(), patch),
                _ => true,
            },
    {
        match tile {
            None => Ok(Surface::Bare),
            Some(t) => match self.locate(t, anim_counter) {
                Err(e) => Err(e),
                Ok(None) => match t.color {
                    Some(color) => Ok(Surface::Flat(color)),
                    None => Err(RenderError::MalformedTile),
                },
                Ok(Some(patch)) => Ok(Surface::Textured(patch)),
            },
        }
    }

    /// Reads a texel of a patch, coordinates clamped to the patch.
    pub fn clamped_texel(&self, patch: &Patch, u: usize, v: usize) -> (texel: [u8; 4])
        requires
            patch_ok(self.images(), *patch),
        ensures
            texel == clamped_texel(self.images(), *patch, u, v),
    {
        let image = self.get_image(patch.image).unwrap();
        patch.texel(
            image.0.as_slice(),
            clamp_index(u, patch.width),
            clamp_index(v, patch.height),
        )
    }
}

/// The color of a surface without a tile: opaque black.
pub open spec fn background() -> [u8; 4] {
    [0u8, 0u8, 0u8, 255u8]
}

/// The color of a surface without a tile.
pub fn background_color() -> (color: [u8; 4])
    ensures
        color == background(),
{
    let color: [u8; 4] = [0, 0, 0, 255];
    assert(color =~= background());
    color
}

/// The animation step at which floor and ceiling are drawn: they do not
/// move, and show their first frame at all times.
pub const BACKDROP_STEP: usize = 0;

/// Whether a backdrop can be drawn, and if not, why: the column must have
/// room for `height` pixels, both tiles must be drawable, and where either
/// is textured there must be one sample for each row from the horizon down.
pub open spec fn backdrop_verdict(
    images: Seq<Image>,
    ceiling: Option<Tile>,
    floor: Option<Tile>,
    height: int,
    len: int,
    samples: int,
) -> Result<(), RenderError> {
    if len < 4 * height {
        Err(RenderError::BufferTooSmall)
    } else {
        match spec_surface(images, ceiling, BACKDROP_STEP) {
            Err(e) => Err(e),
            Ok(c) => match spec_surface(images, floor, BACKDROP_STEP) {
                Err(e) => Err(e),
                Ok(f) => if (c is Textured || f is Textured) && samples != height - height / 2 {
                    Err(RenderError::PlanMismatch)
                } else {
                    Ok(())
                },
            },
        }
    }
}

/// Tells whether a backdrop can be drawn into a column of `len` bytes.
pub fn check_backdrop(
    world: &WorldMap,
    height: usize,
    len: usize,
    samples: usize,
) -> (verdict: Result<(), RenderError>)
    ensures
        verdict == backdrop_verdict(
            world.images(),
            world.default_ceiling(),
            world.default_floor(),
            height as int,
            len as int,
            samples as int,
        ),
{
    if len / 4 < height {
        return Err(RenderError::BufferTooSmall);
    }
    let ceiling = match world.surface(world.get_default_ceiling(), BACKDROP_STEP) {
        Err(e) => {
            return Err(e);
        },
        Ok(s) => s,
    };
    let floor = match world.surface(world.get_default_floor(), BACKDROP_STEP) {
        Err(e) => {
            return Err(e);
        },
        Ok(s) => s,
    };
    let textured: bool = matches!(ceiling, Surface::Textured(_)) || matches!(
        floor,
        Surface::Textured(_)
    );
    if textured && samples != height - height / 2 {
        return Err(RenderError::PlanMismatch);
    }
    Ok(())
}

/// Row `r` of a column after the backdrop is drawn.
///
/// The rows above the horizon belong to the ceiling and the rows from the
/// horizon down to the floor. A flat surface fills its rows with its color.
/// A textured surface gives each row the texel that the row's sample
/// addresses, seen through the fog of that sample; the ceiling row takes the
/// sample of the floor row that mirrors it. On a screen of odd height a
/// textured ceiling also covers the horizon row. Rows of a surface without
/// a tile are filled with the background color. So every row is written,
/// and none shows what the column held before.
pub open spec fn backdrop_row<F: Fn([u8; 4], [u8; 4], Scalar) -> [u8; 4]>(
    blend: &F,
    images: Seq<Image>,
    fog_color: [u8; 4],
    ceiling: Surface,
    floor: Surface,
    height: int,
    samples: Seq<RowSample>,
    after: Seq<u8>,
    r: int,
) -> bool {
    let horizon = height / 2;
    if ceiling is Textured && r < height - horizon {
        let s = samples[height - 1 - r - horizon];
        fogged(
            blend,
            clamped_texel(images, ceiling->Textured_0, s.ceiling_u, s.ceiling_v),
            fog_color,
            s.mix,
            pixel(after, r),
        )
    } else if floor is Textured && r >= horizon {
        let s = samples[r - horizon];
        fogged(
            blend,
            clamped_texel(images, floor->Textured_0, s.floor_u, s.floor_v),
            fog_color,
            s.mix,
            pixel(after, r),
        )
    } else if ceiling is Flat && r < horizon {
        pixel(after, r) == ceiling->Flat_0
    } else if floor is Flat && r >= horizon {
        pixel(after, r) == floor->Flat_0
    } else {
        pixel(after, r) == background()
    }
}

/// A column after the backdrop is drawn over `before`: each of its `height`
/// rows is as `backdrop_row` says, and what follows them is untouched.
pub open spec fn backdrop_drawn<F: Fn([u8; 4], [u8; 4], Scalar) -> [u8; 4]>(
    blend: &F,
    world: &WorldMap,
    height: int,
    samples: Seq<RowSample>,
    before: Seq<u8>,
    after: Seq<u8>,
) -> bool {
    &&& after.len() == before.len()
    &&& forall|r: int|
        0 <= r < height ==> backdrop_row(
            blend,
            world.images(),
            world.fog_color(),
            spec_surface(world.images(), world.default_ceiling(), BACKDROP_STEP).unwrap(),
            spec_surface(world.images(), world.default_floor(), BACKDROP_STEP).unwrap(),
            height,
            samples,
            after,
            r,
        )
    &&& forall|i: int| 4 * height <= i < before.len() ==> after[i] == before[i]
}

/// Draws ceiling and floor into a column, with the world's default tiles.
///
/// Nothing is written unless everything can be drawn. Bytes after the
/// column's `height` pixels are never written.
pub fn draw_backdrop<F: Fn([u8; 4], [u8; 4], Scalar) -> [u8; 4]>(
    line: &mut [u8],
    height: usize,
    world: &WorldMap,
    samples: &[RowSample],
    blend: &F,
) -> (done: Result<(), RenderError>)
    requires
        blends_all(blend),
    ensures
        done == backdrop_verdict(
            world.images(),
            world.default_ceiling(),
            world.default_floor(),
            height as int,
            old(line)@.len() as int,
            samples@.len() as int,
        ),
        final(line)@.len() == old(line)@.len(),
        done.is_err() ==> final(line)@ == old(line)@,
        done.is_ok() ==> backdrop_drawn(
            blend,
            world,
            height as int,
            samples@,
            old(line)@,
            final(line)@,
        ),
{
    let len: usize = line.len();
    if len / 4 < height {
        return Err(RenderError::BufferTooSmall);
    }
    let ceiling = match world.surface(world.get_default_ceiling(), BACKDROP_STEP) {
        Err(e) => {
            return Err(e);
        },
        Ok(s) => s,
    };
    let floor = match world.surface(world.get_default_floor(), BACKDROP_STEP) {
        Err(e) => {
            return Err(e);
        },
        Ok(s) => s,
    };
    let horizon: usize = height / 2;
    let textured: bool = matches!(ceiling, Surface::Textured(_)) || matches!(
        floor,
        Surface::Textured(_)
    );
    if textured && samples.len() != height - horizon {
        return Err(RenderError::PlanMismatch);
    }
    let fog_color = world.get_fog_color();
    let mut r: usize = 0;
    while r < height
        invariant
            r <= height,
            blends_all(blend),
            horizon == height / 2,
            4 * height <= len,
            line@.len() == len,
            old(line)@.len() == len,
            fog_color == world.fog_color(),
            textured == (ceiling is Textured || floor is Textured),
            textured ==> samples@.len() == height - horizon,
            ceiling is Textured ==> patch_ok(world.images(), ceiling->Textured_0),
            floor is Textured ==> patch_ok(world.images(), floor->Textured_0),
            forall|k: int|
                0 <= k < r ==> backdrop_row(
                    blend,
                    world.images(),
                    fog_color,
                    ceiling,
                    floor,
                    height as int,
                    samples@,
                    line@,
                    k,
                ),
            forall|i: int| 4 * r <= i < len ==> line@[i] == old(line)@[i],
        decreases height - r,
    {
        let ghost prev = line@;
        let color: [u8; 4] = match (ceiling, floor) {
            (Surface::Textured(patch), _) if r < height - horizon => {
                let s = &samples[height - 1 - r - horizon];
                shade(
                    world.clamped_texel(&patch, s.ceiling_u, s.ceiling_v),
                    fog_color,
                    s.mix,
                    blend,
                )
            },
            (_, Surface::Textured(patch)) if r >= horizon => {
                let s = &samples[r - horizon];
                shade(
                    world.clamped_texel(&patch, s.floor_u, s.floor_v),
                    fog_color,
                    s.mix,
                    blend,
                )
            },
            (Surface::Flat(c), _) if r < horizon => c,
            (_, Surface::Flat(c)) if r >= horizon => c,
            _ => background_color(),
        };
        write_quad(line, r * 4, color);
        proof {
            assert(backdrop_row(
                blend,
                world.images(),
                fog_color,
                ceiling,
                floor,
                height as int,
                samples@,
                line@,
                r as int,
            ));
            assert forall|k: int| 0 <= k < r implies backdrop_row(
                blend,
                world.images(),
                fog_color,
                ceiling,
                floor,
                height as int,
                samples@,
                line@,
                k,
            ) by {
                assert(pixel(line@, k) =~= pixel(prev, k));
                assert(backdrop_row(
                    blend,
                    world.images(),
                    fog_color,
                    ceiling,
                    floor,
                    height as int,
                    samples@,
                    prev,
                    k,
                ));
            }
        }
        r = r + 1;
    }
    Ok(())
}

/// The face of a wall that a ray has met.
#[derive(Clone, Copy, Debug, PartialEq)]
pub struct Face {
    /// The wall's cell.
    pub cell_x: i32,
    pub cell_y: i32,
    /// The axis of the ray's last step: which face of the cell it met.
    pub side: Axis,
    /// The direction of the ray.
    pub ray_dir: vec2,
}

/// What the caller has computed for the wall that a column's ray has met.
#[derive(Clone, Debug, PartialEq)]
pub struct WallStripe {
    /// The wall's distance from the camera plane.
    pub depth: Scalar,
    /// The wall's projected height in pixels.
    pub line_height: i32,
    /// The texel column at which the ray met the wall, counted along the
    /// wall's face.
    pub tex_u: usize,
    /// The texel row for each row of the stripe, top first.
    pub tex_rows: Vec<usize>,
    /// The fog weight at the wall's distance.
    pub mix: Scalar,
}

impl Face {
    /// Whether the face is seen from the side from which its texel columns
    /// run backward: a face met along x by a ray that runs toward greater x,
    /// or met along y by a ray that runs toward lesser y.
    pub open spec fn spec_mirrored(&self) -> bool {
        match self.side {
            Axis::X => (Scalar { bits: 0 }).spec_lt(self.ray_dir.x),
            Axis::Y => self.ray_dir.y.spec_lt(Scalar { bits: 0 }),
        }
    }

    /// Whether the face is seen from the side from which its texel columns
    /// run backward.
    pub fn mirrored(&self) -> (mirror: bool)
        ensures
            mirror == self.spec_mirrored(),
    {
        match self.side {
            Axis::X => Scalar::zero().lt(self.ray_dir.x),
            Axis::Y => self.ray_dir.y.lt(Scalar::zero()),
        }
    }
}

/// The texel column of a wall stripe: the column that the ray met, brought
/// back into the texture where it lies beyond, and counted from the other
/// edge where the face is mirrored.
pub open spec fn wall_u(tex_u: int, mirror: bool, width: int) -> int {
    if mirror {
        width - clamp_to(tex_u, width) - 1
    } else {
        clamp_to(tex_u, width)
    }
}

/// Whether a wall stripe can be drawn, and if not, why. A cell without a
/// wall and a wall of one flat color are in order: nothing is drawn for
/// them. For a textured wall there must be one texel row for each row of the
/// stripe.
pub open spec fn wall_verdict(
    images: Seq<Image>,
    tile: Option<Tile>,
    anim_counter: usize,
    height: int,
    len: int,
    line_height: int,
    samples: int,
) -> Result<(), RenderError> {
    if len < 4 * height {
        Err(RenderError::BufferTooSmall)
    } else if height > i32::MAX {
        Err(RenderError::ViewportTooLarge)
    } else {
        match spec_surface(images, tile, anim_counter) {
            Err(e) => Err(e),
            Ok(Surface::Textured(_)) => {
                let rows = spec_vertical_span(line_height, height);
                if samples != rows.1 - rows.0 {
                    Err(RenderError::PlanMismatch)
                } else {
                    Ok(())
                }
            },
            Ok(_) => Ok(()),
        }
    }
}

/// Tells whether a wall's stripe can be drawn into a column of `len` bytes.
pub fn check_wall(
    world: &WorldMap,
    anim_counter: usize,
    height: usize,
    len: usize,
    face: &Face,
    stripe: &WallStripe,
) -> (verdict: Result<(), RenderError>)
    ensures
        verdict == wall_verdict(
            world.images(),
            wall_tile(world, face.cell_x, face.cell_y),
            anim_counter,
            height as int,
            len as int,
            stripe.line_height as int,
            stripe.tex_rows@.len() as int,
        ),
{
    if len / 4 < height {
        return Err(RenderError::BufferTooSmall);
    }
    if height > i32::MAX as usize {
        return Err(RenderError::ViewportTooLarge);
    }
    match world.surface(world.get_wall(face.cell_x, face.cell_y), anim_counter) {
        Err(e) => Err(e),
        Ok(Surface::Textured(_)) => {
            let rows = vertical_span(stripe.line_height, height);
            if stripe.tex_rows.len() != rows.1 - rows.0 {
                Err(RenderError::PlanMismatch)
            } else {
                Ok(())
            }
        },
        Ok(_) => Ok(()),
    }
}

/// Row `r` of a column after a textured wall's stripe is drawn: a row of
/// the stripe holds the wall's texel for that row, seen through the fog at
/// the wall's distance; every other row is as it was.
pub open spec fn wall_row<F: Fn([u8; 4], [u8; 4], Scalar) -> [u8; 4]>(
    blend: &F,
    images: Seq<Image>,
    fog_color: [u8; 4],
    patch: Patch,
    height: int,
    face: Face,
    stripe: WallStripe,
    before: Seq<u8>,
    after: Seq<u8>,
    r: int,
) -> bool {
    let rows = spec_vertical_span(stripe.line_height as int, height);
    if rows.0 <= r < rows.1 {
        fogged(
            blend,
            quad(
                patch_bytes(images, patch),
                patch.offset(
                    wall_u(stripe.tex_u as int, face.spec_mirrored(), patch.width as int),
                    clamp_to(stripe.tex_rows@[r - rows.0] as int, patch.height as int),
                ),
            ),
            fog_color,
            stripe.mix,
            pixel(after, r),
        )
    } else {
        pixel(after, r) == pixel(before, r)
    }
}

/// The tile of the wall in a cell, if one stands there.
pub open spec fn wall_tile(world: &WorldMap, x: i32, y: i32) -> Option<Tile> {
    if world.walls().contains_key((x, y)) {
        Some(world.walls()[(x, y)])
    } else {
        None
    }
}

/// A column after a wall's stripe is drawn over `before`. For a textured
/// wall each of the column's `height` rows is as `wall_row` says, and what
/// follows them is untouched; for a cell without a wall and for a wall of
/// one flat color the column is as it was.
pub open spec fn wall_drawn<F: Fn([u8; 4], [u8; 4], Scalar) -> [u8; 4]>(
    blend: &F,
    world: &WorldMap,
    anim_counter: usize,
    height: int,
    face: Face,
    stripe: WallStripe,
    before: Seq<u8>,
    after: Seq<u8>,
) -> bool {
    match spec_surface(world.images(), wall_tile(world, face.cell_x, face.cell_y), anim_counter) {
        Ok(Surface::Textured(patch)) => {
            &&& after.len() == before.len()
            &&& forall|r: int|
                0 <= r < height ==> wall_row(
                    blend,
                    world.images(),
                    world.fog_color(),
                    patch,
                    height,
                    face,
                    stripe,
                    before,
                    after,
                    r,
                )
            &&& forall|i: int| 4 * height <= i < before.len() ==> after[i] == before[i]
        },
        _ => after == before,
    }
}

/// Draws the stripe of a wall into a column.
///
/// Nothing is written unless the stripe can be drawn. Only rows of the
/// stripe are written, and only for a textured wall.
pub fn draw_wall<F: Fn([u8; 4], [u8; 4], Scalar) -> [u8; 4]>(
    line: &mut [u8],
    height: usize,
    world: &WorldMap,
    anim_counter: usize,
    face: &Face,
    stripe: &WallStripe,
    blend: &F,
) -> (done: Result<(), RenderError>)
    requires
        blends_all(blend),
    ensures
        done == wall_verdict(
            world.images(),
            wall_tile(world, face.cell_x, face.cell_y),
            anim_counter,
            height as int,
            old(line)@.len() as int,
            stripe.line_height as int,
            stripe.tex_rows@.len() as int,
        ),
        final(line)@.len() == old(line)@.len(),
        done.is_err() ==> final(line)@ == old(line)@,
        done.is_ok() ==> wall_drawn(
            blend,
            world,
            anim_counter,
            height as int,
            *face,
            *stripe,
            old(line)@,
            final(line)@,
        ),
{
    let len: usize = line.len();
    if len / 4 < height {
        return Err(RenderError::BufferTooSmall);
    }
    if height > i32::MAX as usize {
        return Err(RenderError::ViewportTooLarge);
    }
    let patch = match world.surface(world.get_wall(face.cell_x, face.cell_y), anim_counter) {
        Err(e) => {
            return Err(e);
        },
        Ok(Surface::Textured(patch)) => patch,
        Ok(_) => {
            return Ok(());
        },
    };
    let rows = vertical_span(stripe.line_height, height);
    if stripe.tex_rows.len() != rows.1 - rows.0 {
        return Err(RenderError::PlanMismatch);
    }
    let fog_color = world.get_fog_color();
    let clamped: usize = clamp_index(stripe.tex_u, patch.width);
    let u: usize = if face.mirrored() {
        patch.width - clamped - 1
    } else {
        clamped
    };
    let image = world.get_image(patch.image).unwrap();
    let mut r: usize = rows.0;
    while r < rows.1
        invariant
            rows.0 <= r <= rows.1,
            rows.1 <= height,
            blends_all(blend),
            (rows.0 as int, rows.1 as int) == spec_vertical_span(
                stripe.line_height as int,
                height as int,
            ),
            stripe.tex_rows@.len() == rows.1 - rows.0,
            4 * height <= len,
            line@.len() == len,
            old(line)@.len() == len,
            fog_color == world.fog_color(),
            patch_ok(world.images(), patch),
            image.0@ == patch_bytes(world.images(), patch),
            u == wall_u(stripe.tex_u as int, face.spec_mirrored(), patch.width as int),
            u < patch.width,
            forall|k: int|
                0 <= k < r ==> wall_row(
                    blend,
                    world.images(),
                    fog_color,
                    patch,
                    height as int,
                    *face,
                    *stripe,
                    old(line)@,
                    line@,
                    k,
                ),
            forall|i: int| 4 * r <= i < len ==> line@[i] == old(line)@[i],
        decreases rows.1 - r,
    {
        let ghost prev = line@;
        let v: usize = clamp_index(stripe.tex_rows[r - rows.0], patch.height);
        let color = shade(patch.texel(image.0.as_slice(), u, v), fog_color, stripe.mix, blend);
        write_quad(line, r * 4, color);
        proof {
            assert(wall_row(
                blend,
                world.images(),
                fog_color,
                patch,
                height as int,
                *face,
                *stripe,
                old(line)@,
                line@,
                r as int,
            ));
            assert forall|k: int| 0 <= k < r implies wall_row(
                blend,
                world.images(),
                fog_color,
                patch,
                height as int,
                *face,
                *stripe,
                old(line)@,
                line@,
                k,
            ) by {
                assert(pixel(line@, k) == pixel(prev, k));
                assert(wall_row(
                    blend,
                    world.images(),
                    fog_color,
                    patch,
                    height as int,
                    *face,
                    *stripe,
                    old(line)@,
                    prev,
                    k,
                ));
            }
        }
        r = r + 1;
    }
    Ok(())
}

/// What the caller has computed for one sprite: where on the screen it is
/// centered, how many pixels wide and high it is, how deep in the scene it
/// stands, and the fog weight at that depth.
#[derive(Clone, Copy, Debug, PartialEq)]
pub struct SpriteStripe {
    pub screen_x: i32,
    pub size: i32,
    pub depth: Scalar,
    pub mix: Scalar,
}

/// Whether a sprite shows in column `x` of a screen `width` pixels wide,
/// behind which a wall stands at `wall_depth`: the column must lie within
/// the sprite's span, and the sprite must stand in front of the camera and
/// nearer than the wall.
pub open spec fn sprite_shows(x: int, width: int, stripe: SpriteStripe, wall_depth: Scalar) -> bool {
    &&& stripe.size > 0
    &&& in_span(x, stripe.screen_x as int, stripe.size as int, width)
    &&& (Scalar { bits: 0 }).spec_lt(stripe.depth)
    &&& stripe.depth.spec_lt(wall_depth)
}

/// Whether a sprite's stripe can be drawn, and if not, why. A sprite of one
/// flat color is in order: nothing is drawn for it.
pub open spec fn sprite_verdict(
    images: Seq<Image>,
    tile: Tile,
    anim_counter: usize,
    width: int,
    height: int,
    len: int,
) -> Result<(), RenderError> {
    if len < 4 * height {
        Err(RenderError::BufferTooSmall)
    } else if height > i32::MAX || width > i32::MAX {
        Err(RenderError::ViewportTooLarge)
    } else {
        match spec_locate(images, &tile, anim_counter) {
            Err(e) => Err(e),
            Ok(_) => Ok(()),
        }
    }
}

/// Tells whether a sprite's stripe can be drawn into a column of `len`
/// bytes.
pub fn check_sprite(
    world: &WorldMap,
    anim_counter: usize,
    width: usize,
    height: usize,
    len: usize,
    tile: &Tile,
) -> (verdict: Result<(), RenderError>)
    ensures
        verdict == sprite_verdict(
            world.images(),
            *tile,
            anim_counter,
            width as int,
            height as int,
            len as int,
        ),
{
    if len / 4 < height {
        return Err(RenderError::BufferTooSmall);
    }
    if height > i32::MAX as usize || width > i32::MAX as usize {
        return Err(RenderError::ViewportTooLarge);
    }
    match world.locate(tile, anim_counter) {
        Err(e) => Err(e),
        Ok(_) => Ok(()),
    }
}

/// The texel of a sprite that shows in column `x` and row `r`.
pub open spec fn sprite_texel(
    images: Seq<Image>,
    patch: Patch,
    stripe: SpriteStripe,
    x: int,
    height: int,
    r: int,
) -> [u8; 4] {
    quad(
        patch_bytes(images, patch),
        patch.offset(
            sprite_tex_u(x, stripe.screen_x as int, stripe.size as int, patch.width as int),
            sprite_tex_v(r, height, stripe.size as int, patch.height as int),
        ),
    )
}

/// Row `r` of column `x` after a textured sprite's stripe is drawn.
///
/// A row of a sprite that shows in the column takes the sprite's texel, seen
/// through the fog at the sprite's depth: the texel as it is where there is
/// no fog, the fog color where the fog is complete, and between the two
/// what `blend` gives, which is handed the texel with its alpha. A texel
/// whose alpha is zero is left out, whatever the fog: there, and in every
/// other row, the row is as it was.
pub open spec fn sprite_row<F: Fn([u8; 4], [u8; 4], Scalar) -> [u8; 4]>(
    blend: &F,
    images: Seq<Image>,
    fog_color: [u8; 4],
    patch: Patch,
    x: int,
    width: int,
    height: int,
    stripe: SpriteStripe,
    wall_depth: Scalar,
    before: Seq<u8>,
    after: Seq<u8>,
    r: int,
) -> bool {
    let texel = sprite_texel(images, patch, stripe, x, height, r);
    if sprite_shows(x, width, stripe, wall_depth) && in_span(
        r,
        height / 2,
        stripe.size as int,
        height,
    ) {
        if texel[3] == 0 {
            pixel(after, r) == pixel(before, r)
        } else {
            fogged(blend, texel, fog_color, stripe.mix, pixel(after, r))
        }
    } else {
        pixel(after, r) == pixel(before, r)
    }
}

/// A column after a sprite's stripe is drawn over `before`. For a textured
/// sprite each of the column's `height` rows is as `sprite_row` says, and
/// what follows them is untouched; for a sprite of one flat color the
/// column is as it was.
pub open spec fn sprite_drawn<F: Fn([u8; 4], [u8; 4], Scalar) -> [u8; 4]>(
    blend: &F,
    world: &WorldMap,
    anim_counter: usize,
    x: int,
    width: int,
    height: int,
    tile: Tile,
    stripe: SpriteStripe,
    wall_depth: Scalar,
    before: Seq<u8>,
    after: Seq<u8>,
) -> bool {
    match spec_locate(world.images(), &tile, anim_counter) {
        Ok(Some(patch)) => {
            &&& after.len() == before.len()
            &&& forall|r: int|
                0 <= r < height ==> sprite_row(
                    blend,
                    world.images(),
                    world.fog_color(),
                    patch,
                    x,
                    width,
                    height,
                    stripe,
                    wall_depth,
                    before,
                    after,
                    r,
                )
            &&& forall|i: int| 4 * height <= i < before.len() ==> after[i] == before[i]
        },
        _ => after == before,
    }
}

/// Draws the stripe of a sprite into column `x` of a screen `width` pixels
/// wide, over what the column holds. `wall_depth` is the depth of the wall
/// that the column shows, or the largest number where it shows none.
///
/// Nothing is written unless the stripe can be drawn. A sprite that stands
/// behind the wall, or at its depth, leaves the column as it is.
pub fn draw_sprite<F: Fn([u8; 4], [u8; 4], Scalar) -> [u8; 4]>(
    line: &mut [u8],
    x: usize,
    width: usize,
    height: usize,
    world: &WorldMap,
    anim_counter: usize,
    tile: &Tile,
    stripe: &SpriteStripe,
    wall_depth: Scalar,
    blend: &F,
) -> (done: Result<(), RenderError>)
    requires
        blends_all(blend),
    ensures
        done == sprite_verdict(
            world.images(),
            *tile,
            anim_counter,
            width as int,
            height as int,
            old(line)@.len() as int,
        ),
        final(line)@.len() == old(line)@.len(),
        done.is_err() ==> final(line)@ == old(line)@,
        !stripe.depth.spec_lt(wall_depth) ==> final(line)@ == old(line)@,
        done.is_ok() ==> sprite_drawn(
            blend,
            world,
            anim_counter,
            x as int,
            width as int,
            height as int,
            *tile,
            *stripe,
            wall_depth,
            old(line)@,
            final(line)@,
        ),
{
    let len: usize = line.len();
    if len / 4 < height {
        return Err(RenderError::BufferTooSmall);
    }
    if height > i32::MAX as usize || width > i32::MAX as usize {
        return Err(RenderError::ViewportTooLarge);
    }
    let patch = match world.locate(tile, anim_counter) {
        Err(e) => {
            return Err(e);
        },
        Ok(Some(patch)) => patch,
        Ok(None) => {
            return Ok(());
        },
    };
    let ghost shows = sprite_shows(x as int, width as int, *stripe, wall_depth);
    let columns = clip_span(stripe.screen_x, stripe.size, width as i32);
    let in_front: bool = Scalar::zero().lt(stripe.depth) && stripe.depth.lt(wall_depth);
    if !(stripe.size > 0 && x < width && columns.0 <= x as i64 && (x as i64) < columns.1
        && in_front) {
        assert(!shows);
        return Ok(());
    }
    assert(shows);
    let rows = vertical_span(stripe.size, height);
    let fog_color = world.get_fog_color();
    let u: usize = sprite_texel_column(x as i32, stripe.screen_x, stripe.size, width as i32, patch.width);
    let image = world.get_image(patch.image).unwrap();
    let mut r: usize = rows.0;
    while r < rows.1
        invariant
            rows.0 <= r <= rows.1,
            rows.1 <= height,
            height <= i32::MAX,
            stripe.size > 0,
            blends_all(blend),
            shows == sprite_shows(x as int, width as int, *stripe, wall_depth),
            shows,
            forall|y: int|
                rows.0 <= y < rows.1 <==> #[trigger] in_span(
                    y,
                    height as int / 2,
                    stripe.size as int,
                    height as int,
                ),
            4 * height <= len,
            line@.len() == len,
            old(line)@.len() == len,
            fog_color == world.fog_color(),
            patch_ok(world.images(), patch),
            image.0@ == patch_bytes(world.images(), patch),
            u == sprite_tex_u(
                x as int,
                stripe.screen_x as int,
                stripe.size as int,
                patch.width as int,
            ),
            u < patch.width,
            forall|k: int|
                0 <= k < r ==> sprite_row(
                    blend,
                    world.images(),
                    fog_color,
                    patch,
                    x as int,
                    width as int,
                    height as int,
                    *stripe,
                    wall_depth,
                    old(line)@,
                    line@,
                    k,
                ),
            forall|i: int| 4 * r <= i < len ==> line@[i] == old(line)@[i],
        decreases rows.1 - r,
    {
        let ghost prev = line@;
        assert(in_span(r as int, height as int / 2, stripe.size as int, height as int));
        let v: usize = sprite_texel_row(r, height, stripe.size, patch.height);
        let texel = patch.texel(image.0.as_slice(), u, v);
        if texel[3] != 0 {
            let color = shade(texel, fog_color, stripe.mix, blend);
            write_quad(line, r * 4, color);
        }
        proof {
            assert(pixel(prev, r as int) =~= pixel(old(line)@, r as int));
            assert(sprite_row(
                blend,
                world.images(),
                fog_color,
                patch,
                x as int,
                width as int,
                height as int,
                *stripe,
                wall_depth,
                old(line)@,
                line@,
                r as int,
            ));
            assert forall|k: int| 0 <= k < r implies sprite_row(
                blend,
                world.images(),
                fog_color,
                patch,
                x as int,
                width as int,
                height as int,
                *stripe,
                wall_depth,
                old(line)@,
                line@,
                k,
            ) by {
                assert(pixel(line@, k) =~= pixel(prev, k));
                assert(sprite_row(
                    blend,
                    world.images(),
                    fog_color,
                    patch,
                    x as int,
                    width as int,
                    height as int,
                    *stripe,
                    wall_depth,
                    old(line)@,
                    prev,
                    k,
                ));
            }
        }
        r = r + 1;
    }
    Ok(())
}

} // verus!
