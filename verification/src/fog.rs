//! Fading a color toward the fog color.

use vstd::prelude::*;
use crate::scalar::ONE_BITS;
use crate::scalar::Scalar;

verus! {

/// The weight is at most zero: no fog at all.
pub open spec fn is_clear(mix: Scalar) -> bool {
    mix.spec_le(Scalar { bits: 0 })
}

/// The weight is at least one: nothing but fog.
pub open spec fn is_solid(mix: Scalar) -> bool {
    !is_clear(mix) && (Scalar { bits: ONE_BITS }).spec_le(mix)
}

/// `out` is `color` seen through fog of weight `mix`: the color itself
/// where there is no fog, the fog color where there is nothing but fog, and
/// between the two a color that `blend` gives for the three.
pub open spec fn fogged<F: Fn([u8; 4], [u8; 4], Scalar) -> [u8; 4]>(
    blend: &F,
    color: [u8; 4],
    fog_color: [u8; 4],
    mix: Scalar,
    out: [u8; 4],
) -> bool {
    if is_clear(mix) {
        out == color
    } else if is_solid(mix) {
        out == fog_color
    } else {
        call_ensures(blend, (color, fog_color, mix), out)
    }
}

/// `blend` may be called with any colors and any weight.
pub open spec fn blends_all<F: Fn([u8; 4], [u8; 4], Scalar) -> [u8; 4]>(blend: &F) -> bool {
    forall|color: [u8; 4], fog_color: [u8; 4], mix: Scalar|
        call_requires(blend, (color, fog_color, mix))
}

/// Whether fog of weight `mix` leaves a color as it is.
pub fn fog_is_clear(mix: Scalar) -> (clear: bool)
    ensures
        clear == is_clear(mix),
{
    mix.le(Scalar::zero())
}

/// Whether fog of weight `mix` hides a color altogether.
pub fn fog_is_solid(mix: Scalar) -> (solid: bool)
    ensures
        solid == is_solid(mix),
{
    !mix.le(Scalar::zero()) && mix.ge(Scalar::one())
}

/// Fades `color` toward `fog_color` by the weight `mix`.
///
/// A weight of zero or less returns `color` unchanged and a weight of one
/// or more returns `fog_color`; `blend` is called for the weights between,
/// and for a weight that is not a number.
pub fn shade<F: Fn([u8; 4], [u8; 4], Scalar) -> [u8; 4]>(
    color: [u8; 4],
    fog_color: [u8; 4],
    mix: Scalar,
    blend: &F,
) -> (out: [u8; 4])
    requires
        blends_all(blend),
    ensures
        fogged(blend, color, fog_color, mix, out),
        is_clear(mix) ==> out == color,
        is_solid(mix) ==> out == fog_color,
{
    if fog_is_clear(mix) {
        color
    } else if fog_is_solid(mix) {
        fog_color
    } else {
        blend(color, fog_color, mix)
    }
}

} // verus!
