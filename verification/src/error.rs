//! What can go wrong when a frame is drawn.

use vstd::prelude::*;

verus! {

/// Why a drawing call refused to draw. A call that returns one of these has
/// written nothing.
#[derive(Clone, Copy, Debug, PartialEq, Eq, Structural)]
pub enum RenderError {
    /// A tile has both a color and a texture, or neither, or no frame.
    MalformedTile,
    /// A tile names an image that the world does not hold.
    MissingImage,
    /// A tile's rectangle reaches beyond the bytes of its image.
    TextureOutOfBounds,
    /// The destination has fewer bytes than the viewport needs.
    BufferTooSmall,
    /// The viewport is wider or higher than `i32::MAX` pixels.
    ViewportTooLarge,
    /// What the caller has computed does not match what is to be drawn:
    /// there are too few or too many samples, stripes or plans, or there is
    /// a stripe for a wall where the ray meets none, or none where it meets
    /// one.
    PlanMismatch,
}

} // verus!
