//! Static point lights, and where their light falls.
//!
//! A light brightens its own cell and, around it, square rings of cells:
//! ring `d` is the border of the square that reaches `d` cells from the
//! light in every direction. How bright a ring is, is the caller's
//! arithmetic; which cells it has, and in which order they are lit, is
//! stated here.

use vstd::prelude::*;

verus! {

/// A light. Its intensity is the radius, in cells, to which it reaches:
/// it lights the rings 1 to `intensity - 1`.
#[derive(Clone, Copy, Debug, PartialEq, Eq, Structural)]
pub struct Light {
    pub intensity: i32,
}

impl Light {
    /// Creates a light.
    pub fn new(intensity: i32) -> (light: Light)
        ensures
            light.intensity == intensity,
    {
        Light { intensity }
    }
}

/// One stroke of light on one cell.
#[derive(Clone, Copy, Debug, PartialEq, Eq, Structural)]
pub struct Stamp {
    /// The cell that is lit.
    pub x: i32,
    pub y: i32,
    /// Which light lights it: an index into the list of lights.
    pub light: usize,
    /// The ring of the light on which the cell lies; 0 for the light's own
    /// cell.
    pub ring: i32,
}

/// The distance between two points of the plane as rings count it: the
/// larger of the distances along x and along y.
pub open spec fn ring_distance(x: int, y: int, cx: int, cy: int) -> int {
    let dx = if x >= cx {
        x - cx
    } else {
        cx - x
    };
    let dy = if y >= cy {
        y - cy
    } else {
        cy - y
    };
    if dx >= dy {
        dx
    } else {
        dy
    }
}

/// The number of cells on ring `d`.
pub open spec fn ring_len(d: int) -> int {
    8 * d
}

/// The `k`-th cell of ring `d` around `(cx, cy)`, in the order in which the
/// ring is lit: first the upper and the lower row, from left to right and
/// for each column the upper cell before the lower; then what is left of the
/// left and the right column, from top to bottom and for each row the left
/// cell before the right.
pub open spec fn ring_cell(cx: int, cy: int, d: int, k: int) -> (int, int) {
    let side = 2 * d + 1;
    if k < 2 * side {
        (
            cx - d + k / 2,
            if k % 2 == 0 {
                cy - d
            } else {
                cy + d
            },
        )
    } else {
        let j = k - 2 * side;
        (
            if j % 2 == 0 {
                cx - d
            } else {
                cx + d
            },
            cy - d + 1 + j / 2,
        )
    }
}

/// The point is a cell of the grid: both coordinates are `i32` values.
pub open spec fn on_grid(x: int, y: int) -> bool {
    i32::MIN <= x <= i32::MAX && i32::MIN <= y <= i32::MAX
}

/// The strokes of light `light` on the first `k` cells of its ring `d`, in
/// order. Points of the ring that are no cells of the grid get none.
pub open spec fn ring_stamps(cx: int, cy: int, light: usize, d: int, k: int) -> Seq<Stamp>
    decreases k,
{
    if k <= 0 {
        Seq::empty()
    } else {
        let before = ring_stamps(cx, cy, light, d, k - 1);
        let cell = ring_cell(cx, cy, d, k - 1);
        if on_grid(cell.0, cell.1) {
            before.push(Stamp { x: cell.0 as i32, y: cell.1 as i32, light, ring: d as i32 })
        } else {
            before
        }
    }
}

/// The strokes of a light at `(cx, cy)` up to its ring `d`: the stroke on
/// its own cell, then ring after ring outward.
pub open spec fn light_stamps_upto(cx: i32, cy: i32, light: usize, d: int) -> Seq<Stamp>
    decreases d,
{
    if d <= 0 {
        seq![Stamp { x: cx, y: cy, light, ring: 0 }]
    } else {
        light_stamps_upto(cx, cy, light, d - 1) + ring_stamps(
            cx as int,
            cy as int,
            light,
            d,
            ring_len(d),
        )
    }
}

/// The outermost ring that a light of the given intensity lights; 0 where
/// it lights none.
pub open spec fn last_ring(intensity: int) -> int {
    if intensity >= 1 {
        intensity - 1
    } else {
        0
    }
}

/// The strokes of the first `n` lights of a list, light after light. Each
/// light is given as `(x, y, intensity)`.
pub open spec fn stamps_upto(lights: Seq<(i32, i32, i32)>, n: int) -> Seq<Stamp>
    decreases n,
{
    if n <= 0 {
        Seq::empty()
    } else {
        let l = lights[n - 1];
        stamps_upto(lights, n - 1) + light_stamps_upto(
            l.0,
            l.1,
            (n - 1) as usize,
            last_ring(l.2 as int),
        )
    }
}

/// Every cell of ring `d` lies at distance `d` from the light.
pub proof fn lemma_ring_cell_distance(cx: int, cy: int, d: int, k: int)
    requires
        d >= 1,
        0 <= k < ring_len(d),
    ensures
        ring_distance(ring_cell(cx, cy, d, k).0, ring_cell(cx, cy, d, k).1, cx, cy) == d,
{
}

/// Every point at distance `d` from the light is a cell of ring `d`, and is
/// so once: a ring has no gaps and lights no cell twice.
pub proof fn lemma_ring_covers_once(cx: int, cy: int, d: int, x: int, y: int) -> (k: int)
    requires
        d >= 1,
        ring_distance(x, y, cx, cy) == d,
    ensures
        0 <= k < ring_len(d),
        ring_cell(cx, cy, d, k) == (x, y),
        forall|j: int| 0 <= j < ring_len(d) && ring_cell(cx, cy, d, j) == (x, y) ==> j == k,
{
    let side = 2 * d + 1;
    let k = if y == cy - d {
        2 * (x - (cx - d))
    } else if y == cy + d {
        2 * (x - (cx - d)) + 1
    } else if x == cx - d {
        2 * side + 2 * (y - (cy - d + 1))
    } else {
        2 * side + 2 * (y - (cy - d + 1)) + 1
    };
    assert(ring_cell(cx, cy, d, k) == (x, y));
    assert forall|j: int| 0 <= j < ring_len(d) && ring_cell(cx, cy, d, j) == (x, y) implies j
        == k by {
        if j < 2 * side {
            assert(j == 2 * (j / 2) + j % 2);
        } else {
            let i = j - 2 * side;
            assert(i == 2 * (i / 2) + i % 2);
        }
    }
    k
}

/// A stroke belongs to the light at `(cx, cy)` with index `light`, lies on
/// one of its rings up to `d`, and is at that ring's distance from it.
pub open spec fn stamp_of(s: Stamp, cx: int, cy: int, light: usize, d: int) -> bool {
    &&& s.light == light
    &&& 0 <= s.ring <= d
    &&& ring_distance(s.x as int, s.y as int, cx, cy) == s.ring
}

/// The strokes on a ring lie on that ring.
pub proof fn lemma_ring_stamps_on_ring(cx: int, cy: int, light: usize, d: int, k: int)
    requires
        1 <= d <= i32::MAX,
        0 <= k <= ring_len(d),
    ensures
        forall|i: int|
            0 <= i < ring_stamps(cx, cy, light, d, k).len() ==> stamp_of(
                #[trigger] ring_stamps(cx, cy, light, d, k)[i],
                cx,
                cy,
                light,
                d,
            ) && ring_stamps(cx, cy, light, d, k)[i].ring == d,
    decreases k,
{
    if k > 0 {
        lemma_ring_stamps_on_ring(cx, cy, light, d, k - 1);
        lemma_ring_cell_distance(cx, cy, d, k - 1);
        let before = ring_stamps(cx, cy, light, d, k - 1);
        let all = ring_stamps(cx, cy, light, d, k);
        assert forall|i: int| 0 <= i < all.len() implies stamp_of(
            #[trigger] all[i],
            cx,
            cy,
            light,
            d,
        ) && all[i].ring == d by {
            if i < before.len() {
                assert(all[i] == before[i]);
            }
        }
    }
}

/// A light reaches no further than its rings: each of its strokes lies at
/// the distance of its ring, and no ring is beyond `d`. The only stroke at
/// distance 0 is the one on the light's own cell.
pub proof fn lemma_light_stamps_within(cx: i32, cy: i32, light: usize, d: int)
    requires
        0 <= d <= i32::MAX,
    ensures
        light_stamps_upto(cx, cy, light, d).len() >= 1,
        light_stamps_upto(cx, cy, light, d)[0] == (Stamp { x: cx, y: cy, light, ring: 0 }),
        forall|i: int|
            0 <= i < light_stamps_upto(cx, cy, light, d).len() ==> stamp_of(
                #[trigger] light_stamps_upto(cx, cy, light, d)[i],
                cx as int,
                cy as int,
                light,
                d,
            ),
        forall|i: int|
            1 <= i < light_stamps_upto(cx, cy, light, d).len() ==> (
            #[trigger] light_stamps_upto(cx, cy, light, d)[i]).ring >= 1,
    decreases d,
{
    if d > 0 {
        lemma_light_stamps_within(cx, cy, light, d - 1);
        lemma_ring_stamps_on_ring(cx as int, cy as int, light, d, ring_len(d));
    }
}

/// Light falls only where a light reaches: every stroke names a light of
/// the list and lies on one of that light's rings, at the ring's distance
/// from the light, so no cell further from every light than that light's
/// outermost ring is ever lit.
pub proof fn lemma_stamps_within(lights: Seq<(i32, i32, i32)>, n: int)
    requires
        0 <= n <= lights.len() <= usize::MAX,
    ensures
        forall|i: int|
            0 <= i < stamps_upto(lights, n).len() ==> {
                let s = #[trigger] stamps_upto(lights, n)[i];
                &&& s.light < n
                &&& stamp_of(
                    s,
                    lights[s.light as int].0 as int,
                    lights[s.light as int].1 as int,
                    s.light,
                    last_ring(lights[s.light as int].2 as int),
                )
            },
    decreases n,
{
    if n > 0 {
        lemma_stamps_within(lights, n - 1);
        let l = lights[n - 1];
        lemma_light_stamps_within(l.0, l.1, (n - 1) as usize, last_ring(l.2 as int));
        let before = stamps_upto(lights, n - 1);
        let own = light_stamps_upto(l.0, l.1, (n - 1) as usize, last_ring(l.2 as int));
        let all = stamps_upto(lights, n);
        assert forall|i: int| 0 <= i < all.len() implies {
            let s = #[trigger] all[i];
            &&& s.light < n
            &&& stamp_of(
                s,
                lights[s.light as int].0 as int,
                lights[s.light as int].1 as int,
                s.light,
                last_ring(lights[s.light as int].2 as int),
            )
        } by {
            if i < before.len() {
                assert(all[i] == before[i]);
            } else {
                assert(all[i] == own[i - before.len()]);
            }
        }
    }
}

/// Lists the strokes of the lights, each given as `(x, y, intensity)`: for
/// each light in turn the stroke on its own cell, then its rings from the
/// innermost to the outermost, each in ring order.
pub fn light_stamps(lights: &[(i32, i32, i32)]) -> (stamps: Vec<Stamp>)
    ensures
        stamps@ == stamps_upto(lights@, lights@.len() as int),
{
    let mut stamps: Vec<Stamp> = Vec::new();
    let mut n: usize = 0;
    while n < lights.len()
        invariant
            n <= lights@.len(),
            stamps@ == stamps_upto(lights@, n as int),
        decreases lights@.len() - n,
    {
        let (cx, cy, intensity) = lights[n];
        let ghost before = stamps@;
        stamps.push(Stamp { x: cx, y: cy, light: n, ring: 0 });
        let mut d: i32 = 1;
        while d < intensity
            invariant
                1 <= d,
                d <= intensity || d == 1,
                stamps@ == before + light_stamps_upto(cx, cy, n, d - 1),
            decreases intensity - d,
        {
            let ghost inner = stamps@;
            let count: i64 = 8 * (d as i64);
            let side2: i64 = 2 * (2 * (d as i64) + 1);
            let mut k: i64 = 0;
            while k < count
                invariant
                    0 <= k <= count,
                    1 <= d,
                    count == ring_len(d as int),
                    side2 == 2 * (2 * d + 1),
                    stamps@ == inner + ring_stamps(cx as int, cy as int, n, d as int, k as int),
                decreases count - k,
            {
                let (x, y): (i64, i64) = if k < side2 {
                    (
                        cx as i64 - d as i64 + k / 2,
                        if k % 2 == 0 {
                            cy as i64 - d as i64
                        } else {
                            cy as i64 + d as i64
                        },
                    )
                } else {
                    let j: i64 = k - side2;
                    (
                        if j % 2 == 0 {
                            cx as i64 - d as i64
                        } else {
                            cx as i64 + d as i64
                        },
                        cy as i64 - d as i64 + 1 + j / 2,
                    )
                };
                assert((x as int, y as int) == ring_cell(cx as int, cy as int, d as int, k as int));
                if i32::MIN as i64 <= x && x <= i32::MAX as i64 && i32::MIN as i64 <= y && y
                    <= i32::MAX as i64 {
                    stamps.push(Stamp { x: x as i32, y: y as i32, light: n, ring: d });
                }
                k = k + 1;
                assert(stamps@ =~= inner + ring_stamps(
                    cx as int,
                    cy as int,
                    n,
                    d as int,
                    k as int,
                ));
            }
            d = d + 1;
            assert(stamps@ =~= before + light_stamps_upto(cx, cy, n, d - 1));
        }
        assert(d - 1 == last_ring(intensity as int));
        n = n + 1;
    }
    stamps
}

} // verus!
