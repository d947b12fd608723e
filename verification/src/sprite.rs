//! Billboards: tiles that stand in the world and face the camera.

use vstd::prelude::*;
use crate::scalar::Scalar;
use crate::tile::Tile;

verus! {

/// A billboard anchored at a point of the world. It has no size of its own:
/// the renderer derives one from its distance to the camera.
#[derive(Clone, Copy, Debug, PartialEq)]
pub struct Sprite {
    pub x: Scalar,
    pub y: Scalar,
    pub tile: Tile,
    /// Shrinks the sprite.
    pub shrink: i32,
    /// Moves the sprite up and down.
    pub move_y: Scalar,
    /// Distance from the camera, for callers that sort sprites.
    pub distance: Scalar,
}

impl Sprite {
    /// Creates a sprite at `(x, y)`, unshrunk and unmoved.
    pub fn new(x: Scalar, y: Scalar, tile: Tile) -> (sprite: Sprite)
        ensures
            sprite.x == x,
            sprite.y == y,
            sprite.tile == tile,
            sprite.shrink == 1,
            sprite.move_y.bits == 0,
            sprite.distance.bits == 0,
    {
        Sprite { x, y, tile, shrink: 1, move_y: Scalar::zero(), distance: Scalar::zero() }
    }
}

} // verus!
