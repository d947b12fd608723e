//! The integer half of a raycasting renderer.
//!
//! A raycaster draws a grid of walls as seen from a camera that stands in
//! it, one column of the screen at a time. Part of that work is arithmetic
//! on real numbers: ray directions, distances, projected sizes. The rest is
//! work on integers and bytes: the map of the world, the walk of a ray
//! through the grid, which rows of a column a wall or a sprite covers,
//! which texel goes to which pixel, what hides what, and where each pixel
//! lies in the frame. This crate is that rest. Its caller does the real
//! arithmetic and hands over the results; real numbers that the crate has
//! to store or to compare are held by their bit patterns.

use vstd::prelude::*;

pub mod column;
pub mod error;
pub mod fog;
pub mod frame;
pub mod grid;
pub mod light;
pub mod lighting;
pub mod math;
pub mod pipeline;
pub mod pixel;
pub mod prelude;
pub mod ray;
pub mod raycaster;
pub mod scalar;
pub mod span;
pub mod sprite;
pub mod texture;
pub mod tile;
pub mod worldmap;

pub use crate::light::Light;
pub use crate::sprite::Sprite;
pub use crate::tile::Tile;
pub use crate::worldmap::WorldMap;

verus! {

/// Keys that a host window hands to the renderer's caller.
#[derive(PartialEq, Eq, Debug, Copy, Clone)]
pub enum WidgetKey {
    Escape,
    Return,
    Delete,
    Up,
    Right,
    Down,
    Left,
    Space,
    Tab,
}

} // verus!
