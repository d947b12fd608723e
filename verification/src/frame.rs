//! The caller's frame: rows of pixels, and a viewport inside it.
//!
//! Columns are drawn top to bottom into buffers of their own and then set
//! into the frame, which is laid out row by row.

use vstd::prelude::*;
use crate::error::RenderError;
use crate::pixel::pixel;
use crate::pixel::read_quad;
use crate::pixel::write_quad;

verus! {

/// A rectangle of the frame, in pixels: `(x, y, width, height)`.
pub type Viewport = (usize, usize, usize, usize);

/// The viewport lies within a frame of `len` bytes whose rows are `stride`
/// pixels long: its columns lie within a row, and its last pixel, the one
/// in its last column and last row, lies within the frame. A viewport
/// without pixels lies within every frame.
pub open spec fn viewport_fits(rect: Viewport, stride: int, len: int) -> bool {
    rect.2 == 0 || rect.3 == 0 || {
        &&& rect.0 + rect.2 <= stride
        &&& ((rect.1 + rect.3 - 1) * stride + rect.0 + rect.2) * 4 <= len
    }
}

/// Whether a viewport can be drawn into a frame, and if not, why.
pub open spec fn viewport_verdict(rect: Viewport, stride: int, len: int) -> Result<
    (),
    RenderError,
> {
    if rect.2 > i32::MAX || rect.3 > i32::MAX {
        Err(RenderError::ViewportTooLarge)
    } else if !viewport_fits(rect, stride, len) {
        Err(RenderError::BufferTooSmall)
    } else {
        Ok(())
    }
}

/// Index, among the frame's pixels, of the pixel in column `x` and row `y`
/// of the viewport.
pub open spec fn frame_pixel(rect: Viewport, stride: int, x: int, y: int) -> int {
    (rect.1 + y) * stride + rect.0 + x
}

/// Byte `i` of the frame belongs to a pixel of the viewport.
pub open spec fn in_viewport(rect: Viewport, stride: int, i: int) -> bool {
    exists|x: int, y: int|
        0 <= x < rect.2 && 0 <= y < rect.3 && 4 * #[trigger] frame_pixel(rect, stride, x, y) <= i
            < 4 * frame_pixel(rect, stride, x, y) + 4
}

/// Tells whether a viewport can be drawn into a frame of `len` bytes.
pub fn check_viewport(rect: Viewport, stride: usize, len: usize) -> (verdict: Result<
    (),
    RenderError,
>)
    ensures
        verdict == viewport_verdict(rect, stride as int, len as int),
{
    if rect.2 > i32::MAX as usize || rect.3 > i32::MAX as usize {
        return Err(RenderError::ViewportTooLarge);
    }
    if rect.2 == 0 || rect.3 == 0 {
        return Ok(());
    }
    let right: u128 = rect.0 as u128 + rect.2 as u128;
    if right > stride as u128 {
        return Err(RenderError::BufferTooSmall);
    }
    let above: u128 = rect.1 as u128 + rect.3 as u128 - 1;
    if above > len as u128 {
        assert((above * stride + right) * 4 > len) by (nonlinear_arith)
            requires
                above > len,
                stride >= 1,
                right >= 0,
                len >= 0,
        ;
        return Err(RenderError::BufferTooSmall);
    }
    assert(0 <= above * stride <= 0xffff_ffff_ffff_ffff * 0xffff_ffff_ffff_ffff) by (nonlinear_arith)
        requires
            0 <= above <= 0xffff_ffff_ffff_ffff,
            0 <= stride <= 0xffff_ffff_ffff_ffff,
    ;
    let before: u128 = above * (stride as u128);
    if before > (len / 4) as u128 {
        return Err(RenderError::BufferTooSmall);
    }
    if before + right > (len / 4) as u128 {
        return Err(RenderError::BufferTooSmall);
    }
    Ok(())
}

/// The pixels of a viewport that fits lie in the frame, each row's after
/// those of the row above.
pub proof fn lemma_frame_pixel_bounds(rect: Viewport, stride: int, len: int, x: int, y: int)
    requires
        viewport_fits(rect, stride, len),
        0 <= x < rect.2,
        0 <= y < rect.3,
    ensures
        rect.0 + rect.2 <= stride,
        0 <= (rect.1 + y) * stride,
        (rect.1 + y) * stride + stride == (rect.1 + y + 1) * stride,
        (rect.1 + y) * stride <= (rect.1 + rect.3 - 1) * stride,
        0 <= frame_pixel(rect, stride, x, y),
        4 * frame_pixel(rect, stride, x, y) + 4 <= len,
{
    assert(0 <= (rect.1 + y) * stride) by (nonlinear_arith)
        requires
            0 <= rect.1 + y,
            0 <= stride,
    ;
    assert((rect.1 + y) * stride + stride == (rect.1 + y + 1) * stride) by (nonlinear_arith);
    assert((rect.1 + y) * stride <= (rect.1 + rect.3 - 1) * stride) by (nonlinear_arith)
        requires
            rect.1 + y <= rect.1 + rect.3 - 1,
            0 <= stride,
    ;
}

/// Sets one column into the frame: pixel `y` of `line` becomes the pixel in
/// column `x` and row `y` of the viewport. Nothing else is written.
pub fn set_column(
    frame: &mut [u8],
    rect: Viewport,
    stride: usize,
    x: usize,
    line: &[u8],
)
    requires
        viewport_fits(rect, stride as int, old(frame)@.len() as int),
        x < rect.2,
        line@.len() >= 4 * rect.3,
    ensures
        final(frame)@.len() == old(frame)@.len(),
        forall|y: int|
            0 <= y < rect.3 ==> pixel(final(frame)@, #[trigger] frame_pixel(rect, stride as int, x as int, y))
                == pixel(line@, y),
        forall|i: int|
            0 <= i < old(frame)@.len() && !(exists|y: int|
                0 <= y < rect.3 && 4 * #[trigger] frame_pixel(rect, stride as int, x as int, y) <= i
                    < 4 * frame_pixel(rect, stride as int, x as int, y) + 4) ==> final(frame)@[i]
                == old(frame)@[i],
{
    let len: usize = frame.len();
    let room: usize = line.len();
    let mut y: usize = 0;
    let mut at: usize = 0;
    proof {
        if rect.3 > 0 {
            lemma_frame_pixel_bounds(rect, stride as int, len as int, x as int, 0);
        }
    }
    if rect.3 > 0 {
        at = rect.1 * stride + rect.0 + x;
    }
    while y < rect.3
        invariant
            y <= rect.3,
            x < rect.2,
            frame@.len() == len,
            old(frame)@.len() == len,
            line@.len() == room,
            room >= 4 * rect.3,
            viewport_fits(rect, stride as int, len as int),
            y < rect.3 ==> at == frame_pixel(rect, stride as int, x as int, y as int),
            forall|k: int|
                0 <= k < y ==> pixel(frame@, #[trigger] frame_pixel(rect, stride as int, x as int, k))
                    == pixel(line@, k),
            forall|i: int|
                0 <= i < len && !(exists|k: int|
                    0 <= k < y && 4 * #[trigger] frame_pixel(rect, stride as int, x as int, k) <= i
                        < 4 * frame_pixel(rect, stride as int, x as int, k) + 4) ==> frame@[i]
                    == old(frame)@[i],
        decreases rect.3 - y,
    {
        let ghost prev = frame@;
        proof {
            lemma_frame_pixel_bounds(rect, stride as int, len as int, x as int, y as int);
        }
        let color = read_quad(line, y * 4);
        write_quad(frame, at * 4, color);
        proof {
            assert(pixel(frame@, at as int) == pixel(line@, y as int));
            assert forall|k: int| 0 <= k < y implies pixel(
                frame@,
                #[trigger] frame_pixel(rect, stride as int, x as int, k),
            ) == pixel(line@, k) by {
                lemma_frame_pixel_bounds(rect, stride as int, len as int, x as int, k);
                lemma_rows_apart(rect, stride as int, x as int, k, y as int);
                assert(pixel(frame@, frame_pixel(rect, stride as int, x as int, k)) =~= pixel(
                    prev,
                    frame_pixel(rect, stride as int, x as int, k),
                ));
            }
            assert forall|i: int|
                0 <= i < len && !(exists|k: int|
                    0 <= k < y + 1 && 4 * #[trigger] frame_pixel(rect, stride as int, x as int, k)
                        <= i < 4 * frame_pixel(rect, stride as int, x as int, k) + 4) implies frame@[i]
                == old(frame)@[i] by {
                if 4 * at <= i < 4 * at + 4 {
                    assert(4 * frame_pixel(rect, stride as int, x as int, y as int) <= i < 4
                        * frame_pixel(rect, stride as int, x as int, y as int) + 4);
                }
            }
        }
        y = y + 1;
        if y < rect.3 {
            proof {
                lemma_frame_pixel_bounds(rect, stride as int, len as int, x as int, y as int);
            }
            at = at + stride;
        }
    }
}

/// Pixels of one viewport column in different rows are different pixels of
/// the frame, the lower row's after the upper row's.
pub proof fn lemma_rows_apart(rect: Viewport, stride: int, x: int, upper: int, lower: int)
    requires
        0 <= upper < lower,
        0 <= stride,
        rect.0 + rect.2 <= stride,
        0 <= x < rect.2,
    ensures
        frame_pixel(rect, stride, x, upper) < frame_pixel(rect, stride, x, lower),
        stride > 0,
{
    assert((rect.1 + upper) * stride + stride <= (rect.1 + lower) * stride) by (nonlinear_arith)
        requires
            upper + 1 <= lower,
            0 <= stride,
    ;
}

/// Sets a row of the viewport from a buffer that holds the columns one
/// after the other, each `height` pixels long: pixel `x` of the row becomes
/// pixel `y` of column `x`. `line` is the frame's row, and `left` the
/// viewport's first pixel in it.
pub fn set_row(line: &mut [u8], left: usize, width: usize, height: usize, y: usize, columns: &[u8])
    requires
        (left + width) * 4 <= old(line)@.len(),
        y < height,
        width * height * 4 <= columns@.len(),
    ensures
        final(line)@.len() == old(line)@.len(),
        forall|x: int|
            0 <= x < width ==> pixel(final(line)@, left + x) == pixel(columns@, #[trigger] (x * height)
                + y),
        forall|i: int|
            0 <= i < old(line)@.len() && !(4 * left <= i < 4 * (left + width)) ==> final(line)@[i]
                == old(line)@[i],
{
    let len: usize = line.len();
    let room: usize = columns.len();
    let mut x: usize = 0;
    while x < width
        invariant
            x <= width,
            y < height,
            line@.len() == len,
            old(line)@.len() == len,
            (left + width) * 4 <= len,
            columns@.len() == room,
            width * height * 4 <= room,
            forall|k: int|
                0 <= k < x ==> pixel(line@, left + k) == pixel(columns@, #[trigger] (k * height) + y),
            forall|i: int|
                0 <= i < len && !(4 * left <= i < 4 * (left + x)) ==> line@[i] == old(line)@[i],
        decreases width - x,
    {
        let ghost prev = line@;
        assert(x * height + height <= width * height && 0 <= x * height) by (nonlinear_arith)
            requires
                0 <= x < width,
                0 <= height,
        ;
        let color = read_quad(columns, (x * height + y) * 4);
        write_quad(line, (left + x) * 4, color);
        proof {
            assert forall|k: int| 0 <= k < x implies pixel(line@, left + k) == pixel(
                columns@,
                #[trigger] (k * height) + y,
            ) by {
                assert(pixel(line@, left + k) =~= pixel(prev, left + k));
            }
        }
        x = x + 1;
    }
}

} // verus!
