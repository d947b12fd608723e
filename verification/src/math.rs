//! A pair of numbers: a position, a direction or a camera plane.

use vstd::prelude::*;
use crate::scalar::Scalar;

verus! {

#[allow(non_camel_case_types)]
#[derive(Clone, Copy, Debug, PartialEq, Eq, Structural)]
pub struct vec2 {
    pub x: Scalar,
    pub y: Scalar,
}

impl vec2 {
    /// The vector of two positive zeros.
    pub fn zero() -> (v: vec2)
        ensures
            v.x.bits == 0,
            v.y.bits == 0,
    {
        vec2 { x: Scalar::zero(), y: Scalar::zero() }
    }

    /// The vector with the given components.
    pub fn new(x: Scalar, y: Scalar) -> (v: vec2)
        ensures
            v.x == x,
            v.y == y,
    {
        vec2 { x, y }
    }
}

} // verus!
