//! Pixels in a buffer of bytes: four bytes each, red, green, blue, alpha.

use vstd::prelude::*;

verus! {

/// The four bytes that start at `at`.
pub open spec fn quad(bytes: Seq<u8>, at: int) -> [u8; 4] {
    [bytes[at], bytes[at + 1], bytes[at + 2], bytes[at + 3]]
}

/// The pixel with index `p` of a buffer of pixels.
pub open spec fn pixel(bytes: Seq<u8>, p: int) -> [u8; 4] {
    quad(bytes, 4 * p)
}

/// The buffer with the four bytes from `at` on replaced by `color`.
pub open spec fn with_quad(bytes: Seq<u8>, at: int, color: [u8; 4]) -> Seq<u8> {
    Seq::new(
        bytes.len(),
        |i: int|
            if at <= i < at + 4 {
                color[i - at]
            } else {
                bytes[i]
            },
    )
}

/// The buffers hold the same bytes everywhere but in the pixels from `from`
/// up to, not including, `to`.
pub open spec fn same_outside(a: Seq<u8>, b: Seq<u8>, from: int, to: int) -> bool {
    &&& a.len() == b.len()
    &&& forall|i: int| 0 <= i < a.len() && !(4 * from <= i < 4 * to) ==> a[i] == b[i]
}

/// Reads the four bytes that start at `at`.
pub fn read_quad(bytes: &[u8], at: usize) -> (color: [u8; 4])
    requires
        at + 4 <= bytes@.len(),
    ensures
        color == quad(bytes@, at as int),
{
    let color = [bytes[at], bytes[at + 1], bytes[at + 2], bytes[at + 3]];
    assert(color =~= quad(bytes@, at as int));
    color
}

/// Writes `color` over the four bytes that start at `at`.
pub fn write_quad(bytes: &mut [u8], at: usize, color: [u8; 4])
    requires
        at + 4 <= old(bytes)@.len(),
    ensures
        final(bytes)@ == with_quad(old(bytes)@, at as int, color),
        final(bytes)@.len() == old(bytes)@.len(),
        quad(final(bytes)@, at as int) == color,
{
    bytes[at] = color[0];
    bytes[at + 1] = color[1];
    bytes[at + 2] = color[2];
    bytes[at + 3] = color[3];
    assert(bytes@ =~= with_quad(old(bytes)@, at as int, color));
    assert(quad(bytes@, at as int) =~= color);
}

} // verus!
