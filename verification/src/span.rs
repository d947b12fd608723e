//! From projected sizes to rows, columns and texel coordinates.
//!
//! What is drawn of a wall or a sprite is a span of pixels centered on a
//! point of the screen and clipped to it. This is integer arithmetic on
//! sizes that the caller has projected.

use vstd::prelude::*;

verus! {

/// Half of `n`, rounded toward zero.
pub open spec fn half(n: int) -> int {
    if n >= 0 {
        n / 2
    } else {
        -((-n) / 2)
    }
}

/// First pixel of a span of `size` pixels centered on `center`: never
/// before pixel 0.
pub open spec fn span_start(center: int, size: int) -> int {
    if center - half(size) < 0 {
        0
    } else {
        center - half(size)
    }
}

/// The pixel after the last of a span of `size` pixels centered on `center`
/// on a screen of `limit` pixels: never after the screen's last pixel, which
/// therefore is never part of a span.
pub open spec fn span_end(center: int, size: int, limit: int) -> int {
    if center + half(size) >= limit {
        limit - 1
    } else {
        center + half(size)
    }
}

/// Whether pixel `p` lies in the span.
pub open spec fn in_span(p: int, center: int, size: int, limit: int) -> bool {
    span_start(center, size) <= p < span_end(center, size, limit)
}

/// The span of `size` pixels centered on `center`, clipped to a screen of
/// `limit` pixels: its first pixel and the pixel after its last. The span is
/// empty when the second is not greater than the first.
pub fn clip_span(center: i32, size: i32, limit: i32) -> (span: (i64, i64))
    ensures
        span.0 == span_start(center as int, size as int),
        span.1 == span_end(center as int, size as int, limit as int),
{
    let half_size: i64 = (size as i64) / 2;
    let low: i64 = center as i64 - half_size;
    let high: i64 = center as i64 + half_size;
    let start: i64 = if low < 0 {
        0
    } else {
        low
    };
    let end: i64 = if high >= limit as i64 {
        limit as i64 - 1
    } else {
        high
    };
    (start, end)
}

/// The rows of a span, as `vertical_span` returns them: first row and the
/// row after the last, both 0 where the span is empty.
pub open spec fn spec_vertical_span(size: int, height: int) -> (int, int) {
    if span_start(height / 2, size) < span_end(height / 2, size, height) {
        (span_start(height / 2, size), span_end(height / 2, size, height))
    } else {
        (0, 0)
    }
}

/// The rows of a wall stripe or a sprite that is `size` pixels high, on a
/// screen `height` pixels high: centered on the horizon, clipped to the
/// screen.
pub fn vertical_span(size: i32, height: usize) -> (rows: (usize, usize))
    requires
        height <= i32::MAX,
    ensures
        (rows.0 as int, rows.1 as int) == spec_vertical_span(size as int, height as int),
        rows.0 <= rows.1,
        rows.1 <= height,
        rows.0 < rows.1 ==> rows.1 < height,
        forall|y: int|
            rows.0 <= y < rows.1 <==> #[trigger] in_span(
                y,
                height as int / 2,
                size as int,
                height as int,
            ),
{
    let span = clip_span((height / 2) as i32, size, height as i32);
    if span.0 < span.1 {
        (span.0 as usize, span.1 as usize)
    } else {
        (0, 0)
    }
}

/// The texel column of a sprite that shows in screen column `x`, for a
/// sprite `size` pixels wide centered on column `screen_x` and a texture
/// `tex_width` texels wide: the columns of the sprite map linearly onto the
/// columns of the texture.
pub open spec fn sprite_tex_u(x: int, screen_x: int, size: int, tex_width: int) -> int {
    ((256 * (x - (screen_x - half(size))) * tex_width) / size) / 256
}

/// The texel row of a sprite that shows in screen row `y`, for a sprite
/// `size` pixels high on a screen `height` pixels high and a texture
/// `tex_height` texels high. The rows are counted in 256ths from the
/// sprite's upper edge, and never from above it.
pub open spec fn sprite_tex_v(y: int, height: int, size: int, tex_height: int) -> int {
    let d = y * 256 - height * 128 + size * 128;
    let d = if d < 0 {
        0
    } else {
        d
    };
    ((d * tex_height) / size) / 256
}

/// A sprite's texel column lies within its texture for every screen column
/// of its span.
pub proof fn lemma_sprite_tex_u_in_range(x: int, screen_x: int, size: int, limit: int, tex_width: int)
    requires
        size > 0,
        tex_width > 0,
        in_span(x, screen_x, size, limit),
    ensures
        0 <= sprite_tex_u(x, screen_x, size, tex_width) < tex_width,
        0 <= x - (screen_x - half(size)) < size,
{
    let s = x - (screen_x - half(size));
    assert(0 <= s < size);
    lemma_scaled_below(s, size, tex_width);
}

/// A sprite's texel row lies within its texture for every screen row of its
/// span.
pub proof fn lemma_sprite_tex_v_in_range(y: int, height: int, size: int, tex_height: int)
    requires
        size > 0,
        tex_height > 0,
        height >= 0,
        in_span(y, height / 2, size, height),
    ensures
        0 <= sprite_tex_v(y, height, size, tex_height) < tex_height,
        y * 256 - height * 128 + size * 128 < size * 256,
{
    let d = y * 256 - height * 128 + size * 128;
    assert(d < size * 256);
    let e = if d < 0 {
        0
    } else {
        d
    };
    assert(0 <= e < size * 256);
    assert(((e * tex_height) / size) / 256 < tex_height && 0 <= ((e * tex_height) / size) / 256)
        by (nonlinear_arith)
        requires
            0 <= e < size * 256,
            size > 0,
            tex_height > 0,
    ;
}

/// For `0 <= s < size`, scaling `s` by `tex / size` in 256ths stays below
/// `tex`.
proof fn lemma_scaled_below(s: int, size: int, tex: int)
    requires
        0 <= s < size,
        tex > 0,
    ensures
        0 <= ((256 * s * tex) / size) / 256 < tex,
{
    assert(0 <= ((256 * s * tex) / size) / 256 < tex) by (nonlinear_arith)
        requires
            0 <= s < size,
            tex > 0,
    ;
}

/// Computes a sprite's texel column for a screen column of its span.
pub fn sprite_texel_column(x: i32, screen_x: i32, size: i32, limit: i32, tex_width: usize) -> (u: usize)
    requires
        size > 0,
        tex_width > 0,
        in_span(x as int, screen_x as int, size as int, limit as int),
    ensures
        u == sprite_tex_u(x as int, screen_x as int, size as int, tex_width as int),
        u < tex_width,
{
    proof {
        lemma_sprite_tex_u_in_range(
            x as int,
            screen_x as int,
            size as int,
            limit as int,
            tex_width as int,
        );
    }
    let left: i64 = screen_x as i64 - (size as i64) / 2;
    let s: u128 = (x as i64 - left) as u128;
    assert(256 * s * tex_width <= 256 * 0x8000_0000 * 0xffff_ffff_ffff_ffff) by (nonlinear_arith)
        requires
            0 <= s < 0x8000_0000,
            0 <= tex_width <= 0xffff_ffff_ffff_ffff,
    ;
    assert(256 * s >= 0 && 256 * s * tex_width >= 0) by (nonlinear_arith)
        requires
            0 <= s,
            0 <= tex_width,
    ;
    let scaled: u128 = 256 * s * (tex_width as u128);
    ((scaled / (size as u128)) / 256) as usize
}

/// Computes a sprite's texel row for a screen row of its span.
pub fn sprite_texel_row(y: usize, height: usize, size: i32, tex_height: usize) -> (v: usize)
    requires
        size > 0,
        tex_height > 0,
        height <= i32::MAX,
        in_span(y as int, height as int / 2, size as int, height as int),
    ensures
        v == sprite_tex_v(y as int, height as int, size as int, tex_height as int),
        v < tex_height,
{
    proof {
        lemma_sprite_tex_v_in_range(y as int, height as int, size as int, tex_height as int);
    }
    let d: i64 = (y as i64) * 256 - (height as i64) * 128 + (size as i64) * 128;
    let d: u128 = if d < 0 {
        0
    } else {
        d as u128
    };
    assert(0 <= d * tex_height <= 0x100_0000_0000 * 0xffff_ffff_ffff_ffff) by (nonlinear_arith)
        requires
            0 <= d < 0x100_0000_0000,
            0 <= tex_height <= 0xffff_ffff_ffff_ffff,
    ;
    ((d * (tex_height as u128) / (size as u128)) / 256) as usize
}

} // verus!
