//! Walking a ray through the grid until it meets a wall.
//!
//! A ray leaves the camera's cell and crosses one grid line at a time. Which
//! line comes next, one that bounds the cell in x or one that bounds it in y,
//! is a question of distances: the caller computes how far along the ray
//! each line lies, and the nearer line is crossed next. The walk itself is
//! integer work: follow the turns, look each cell up, stop at the first wall
//! or when the step bound is spent.

use vstd::prelude::*;
use crate::math::vec2;
use crate::scalar::Scalar;
use crate::worldmap::WorldMap;

verus! {

/// The most grid lines that a ray crosses. A ray that has met no wall by
/// then is taken to meet none.
pub const MAX_STEPS: usize = 40;

/// The axis along which a ray moves when it crosses a grid line.
#[derive(Clone, Copy, Debug, PartialEq, Eq, Structural)]
pub enum Axis {
    X,
    Y,
}

/// Where a ray met a wall.
#[derive(Clone, Copy, Debug, PartialEq, Eq, Structural)]
pub struct Hit {
    /// The wall's cell.
    pub cell_x: i32,
    pub cell_y: i32,
    /// The axis of the last step: which face of the cell was met.
    pub side: Axis,
    /// The number of grid lines crossed, the last one included.
    pub steps: usize,
    /// How many of them were crossed along x.
    pub steps_x: usize,
}

/// How many of the first `n` turns go along x.
pub open spec fn turns_along_x(turns: Seq<Axis>, n: int) -> int
    decreases n,
{
    if n <= 0 {
        0
    } else {
        turns_along_x(turns, n - 1) + if turns[n - 1] == Axis::X {
            1int
        } else {
            0int
        }
    }
}

/// The point of the integer plane that the ray has reached after `n` steps:
/// each step along x adds `step_x` to x, each step along y adds `step_y` to
/// y.
pub open spec fn cell_after(
    start_x: int,
    start_y: int,
    step_x: int,
    step_y: int,
    turns: Seq<Axis>,
    n: int,
) -> (int, int) {
    (
        start_x + step_x * turns_along_x(turns, n),
        start_y + step_y * (n - turns_along_x(turns, n)),
    )
}

/// The number of steps that a walk along `turns` takes at most.
pub open spec fn step_bound(turns: Seq<Axis>) -> int {
    if turns.len() < MAX_STEPS {
        turns.len() as int
    } else {
        MAX_STEPS as int
    }
}

/// No wall stands at any of the first `n` cells that the ray enters.
pub open spec fn clear_for(
    world: &WorldMap,
    start_x: int,
    start_y: int,
    step_x: int,
    step_y: int,
    turns: Seq<Axis>,
    n: int,
) -> bool {
    forall|k: int|
        1 <= k <= n ==> {
            let at = #[trigger] cell_after(start_x, start_y, step_x, step_y, turns, k);
            !world.wall_at(at.0, at.1)
        }
}

/// The number of the first step, from step `k` on, with which the ray
/// enters a cell that holds a wall; 0 when it enters none within the step
/// bound.
pub open spec fn first_wall(
    world: &WorldMap,
    start_x: int,
    start_y: int,
    step_x: int,
    step_y: int,
    turns: Seq<Axis>,
    k: int,
) -> int
    decreases step_bound(turns) - k + 1,
{
    if k < 1 || k > step_bound(turns) {
        0
    } else {
        let at = cell_after(start_x, start_y, step_x, step_y, turns, k);
        if world.wall_at(at.0, at.1) {
            k
        } else {
            first_wall(world, start_x, start_y, step_x, step_y, turns, k + 1)
        }
    }
}

/// What a walk finds: the first wall that the ray meets within the step
/// bound, with its cell, the axis of the step that met it, and the number
/// of that step.
pub open spec fn spec_cast(
    world: &WorldMap,
    start_x: int,
    start_y: int,
    step_x: int,
    step_y: int,
    turns: Seq<Axis>,
) -> Option<Hit> {
    let n = first_wall(world, start_x, start_y, step_x, step_y, turns, 1);
    if n == 0 {
        None
    } else {
        let at = cell_after(start_x, start_y, step_x, step_y, turns, n);
        Some(
            Hit {
                cell_x: at.0 as i32,
                cell_y: at.1 as i32,
                side: turns[n - 1],
                steps: n as usize,
                steps_x: turns_along_x(turns, n) as usize,
            },
        )
    }
}

/// Where no wall stands at the steps from `k` up to `n`, the first wall
/// from `k` on is the first wall from `n` on.
pub proof fn lemma_first_wall_skips(
    world: &WorldMap,
    start_x: int,
    start_y: int,
    step_x: int,
    step_y: int,
    turns: Seq<Axis>,
    k: int,
    n: int,
)
    requires
        1 <= k <= n,
        n <= step_bound(turns) + 1,
        clear_for(world, start_x, start_y, step_x, step_y, turns, n - 1),
    ensures
        first_wall(world, start_x, start_y, step_x, step_y, turns, k) == first_wall(
            world,
            start_x,
            start_y,
            step_x,
            step_y,
            turns,
            n,
        ),
    decreases n - k,
{
    if k < n {
        let at = cell_after(start_x, start_y, step_x, step_y, turns, k);
        assert(!world.wall_at(at.0, at.1));
        lemma_first_wall_skips(world, start_x, start_y, step_x, step_y, turns, k + 1, n);
    }
}

/// Walks from the cell `(start_x, start_y)` along `turns` and returns the
/// first wall met, if any is met within the step bound.
///
/// The start cell itself is not looked at. Points outside the `i32` plane
/// hold no wall, so a ray that leaves the plane goes on and meets nothing
/// there.
pub fn cast(
    world: &WorldMap,
    start_x: i32,
    start_y: i32,
    step_x: i32,
    step_y: i32,
    turns: &[Axis],
) -> (hit: Option<Hit>)
    ensures
        hit == spec_cast(
            world,
            start_x as int,
            start_y as int,
            step_x as int,
            step_y as int,
            turns@,
        ),
        hit.is_none() <==> clear_for(
            world,
            start_x as int,
            start_y as int,
            step_x as int,
            step_y as int,
            turns@,
            step_bound(turns@),
        ),
        match hit {
            Some(h) => {
                &&& 1 <= h.steps <= step_bound(turns@)
                &&& cell_after(
                    start_x as int,
                    start_y as int,
                    step_x as int,
                    step_y as int,
                    turns@,
                    h.steps as int,
                ) == (h.cell_x as int, h.cell_y as int)
                &&& world.walls().contains_key((h.cell_x, h.cell_y))
                &&& h.side == turns@[h.steps - 1]
                &&& clear_for(
                    world,
                    start_x as int,
                    start_y as int,
                    step_x as int,
                    step_y as int,
                    turns@,
                    h.steps - 1,
                )
            },
            None => true,
        },
{
    let bound: usize = if turns.len() < MAX_STEPS {
        turns.len()
    } else {
        MAX_STEPS
    };
    let mut x: i64 = start_x as i64;
    let mut y: i64 = start_y as i64;
    let mut i: usize = 0;
    let mut along_x: usize = 0;
    let ghost sx = start_x as int;
    let ghost sy = start_y as int;
    let ghost dx = step_x as int;
    let ghost dy = step_y as int;
    while i < bound
        invariant
            i <= bound,
            bound == step_bound(turns@),
            bound <= MAX_STEPS,
            bound <= turns@.len(),
            sx == start_x,
            sy == start_y,
            dx == step_x,
            dy == step_y,
            0 <= turns_along_x(turns@, i as int) <= i,
            along_x == turns_along_x(turns@, i as int),
            (x as int, y as int) == cell_after(sx, sy, dx, dy, turns@, i as int),
            clear_for(world, sx, sy, dx, dy, turns@, i as int),
        decreases bound - i,
    {
        let side = turns[i];
        proof {
            let c = turns_along_x(turns@, i as int);
            assert(dx * (c + 1) == dx * c + dx) by (nonlinear_arith);
            assert(dy * (i + 1 - c) == dy * (i - c) + dy) by (nonlinear_arith);
            assert(-0x8000_0000 * 41 <= dx * c <= 0x8000_0000 * 41) by (nonlinear_arith)
                requires
                    0 <= c <= 40,
                    -0x8000_0000 <= dx < 0x8000_0000,
            ;
            assert(-0x8000_0000 * 41 <= dy * (i - c) <= 0x8000_0000 * 41) by (nonlinear_arith)
                requires
                    0 <= i - c <= 40,
                    -0x8000_0000 <= dy < 0x8000_0000,
            ;
        }
        match side {
            Axis::X => {
                x = x + step_x as i64;
                along_x = along_x + 1;
            },
            Axis::Y => {
                y = y + step_y as i64;
            },
        }
        i = i + 1;
        assert((x as int, y as int) == cell_after(sx, sy, dx, dy, turns@, i as int));
        if i32::MIN as i64 <= x && x <= i32::MAX as i64 && i32::MIN as i64 <= y && y
            <= i32::MAX as i64 {
            if world.has_wall(x as i32, y as i32) {
                assert(!clear_for(world, sx, sy, dx, dy, turns@, step_bound(turns@))) by {
                    let at = cell_after(sx, sy, dx, dy, turns@, i as int);
                    assert(world.wall_at(at.0, at.1));
                }
                proof {
                    lemma_first_wall_skips(world, sx, sy, dx, dy, turns@, 1, i as int);
                }
                return Some(
                    Hit { cell_x: x as i32, cell_y: y as i32, side, steps: i, steps_x: along_x },
                );
            }
        }
        assert(clear_for(world, sx, sy, dx, dy, turns@, i as int)) by {
            assert forall|k: int| 1 <= k <= i implies {
                let at = #[trigger] cell_after(sx, sy, dx, dy, turns@, k);
                !world.wall_at(at.0, at.1)
            } by {
                if k < i {
                    assert(clear_for(world, sx, sy, dx, dy, turns@, i - 1));
                }
            }
        }
    }
    proof {
        lemma_first_wall_skips(world, sx, sy, dx, dy, turns@, 1, bound + 1);
    }
    None
}

/// The turns of a ray from the distances at which it crosses grid lines:
/// `reach_x[i]` is the distance, along the ray, to the grid line that it
/// crosses along x once it has crossed `i` such lines, and `reach_y[j]` the
/// same along y. With `i` lines crossed along x and `j` along y, the ray
/// crosses next the line that is nearer along it: it goes along x where
/// `reach_x[i]` is less than `reach_y[j]`, and along y otherwise. The turns
/// end with the step bound, or when one of the lists is spent.
pub open spec fn spec_turns(reach_x: Seq<Scalar>, reach_y: Seq<Scalar>, i: int, j: int) -> Seq<Axis>
    decreases MAX_STEPS - i - j,
{
    if i < 0 || j < 0 || i + j >= MAX_STEPS || i >= reach_x.len() || j >= reach_y.len() {
        Seq::empty()
    } else if reach_x[i].spec_lt(reach_y[j]) {
        seq![Axis::X] + spec_turns(reach_x, reach_y, i + 1, j)
    } else {
        seq![Axis::Y] + spec_turns(reach_x, reach_y, i, j + 1)
    }
}

/// A ray with enough distances is walked to the step bound: where each list
/// holds at least as many distances as the bound, the turns from the state
/// `(i, j)` on are as many as the bound leaves.
pub proof fn lemma_turns_fill_the_bound(reach_x: Seq<Scalar>, reach_y: Seq<Scalar>, i: int, j: int)
    requires
        0 <= i,
        0 <= j,
        i + j <= MAX_STEPS,
        reach_x.len() >= MAX_STEPS,
        reach_y.len() >= MAX_STEPS,
    ensures
        spec_turns(reach_x, reach_y, i, j).len() == MAX_STEPS - i - j,
    decreases MAX_STEPS - i - j,
{
    if i + j < MAX_STEPS {
        if reach_x[i].spec_lt(reach_y[j]) {
            lemma_turns_fill_the_bound(reach_x, reach_y, i + 1, j);
        } else {
            lemma_turns_fill_the_bound(reach_x, reach_y, i, j + 1);
        }
    }
}

/// Computes the turns of a ray from the distances at which it crosses grid
/// lines.
pub fn turns_from(reach_x: &[Scalar], reach_y: &[Scalar]) -> (turns: Vec<Axis>)
    ensures
        turns@ == spec_turns(reach_x@, reach_y@, 0, 0),
        turns@.len() <= MAX_STEPS,
{
    let mut turns: Vec<Axis> = Vec::new();
    let mut i: usize = 0;
    let mut j: usize = 0;
    while i + j < MAX_STEPS && i < reach_x.len() && j < reach_y.len()
        invariant
            i + j <= MAX_STEPS,
            turns@.len() == i + j,
            spec_turns(reach_x@, reach_y@, 0, 0) == turns@ + spec_turns(
                reach_x@,
                reach_y@,
                i as int,
                j as int,
            ),
        decreases MAX_STEPS - i - j,
    {
        let ghost rest = spec_turns(reach_x@, reach_y@, i as int, j as int);
        if reach_x[i].lt(reach_y[j]) {
            turns.push(Axis::X);
            i = i + 1;
        } else {
            turns.push(Axis::Y);
            j = j + 1;
        }
        assert(turns@ + spec_turns(reach_x@, reach_y@, i as int, j as int) =~= turns@.drop_last()
            + rest);
    }
    assert(turns@ + spec_turns(reach_x@, reach_y@, i as int, j as int) =~= turns@);
    turns
}

/// The step that a ray takes along an axis: one cell back where its
/// direction along the axis is negative, one cell forward otherwise.
pub open spec fn spec_step(component: Scalar) -> int {
    if component.spec_lt(Scalar { bits: 0 }) {
        -1
    } else {
        1
    }
}

/// The step that a ray takes along an axis.
pub fn step_of(component: Scalar) -> (step: i32)
    ensures
        step == spec_step(component),
{
    if component.lt(Scalar::zero()) {
        -1
    } else {
        1
    }
}

/// What the walk of a ray finds that leaves the point `pos` in the
/// direction `ray_dir`: it starts in the cell of `pos`, which is that of the
/// floors of its coordinates, and steps along each axis by the sign of its
/// direction.
pub open spec fn spec_cast_from(
    world: &WorldMap,
    pos: vec2,
    ray_dir: vec2,
    turns: Seq<Axis>,
) -> Option<Hit> {
    spec_cast(
        world,
        pos.x.spec_floor(),
        pos.y.spec_floor(),
        spec_step(ray_dir.x),
        spec_step(ray_dir.y),
        turns,
    )
}

/// Walks a ray that leaves the point `pos` in the direction `ray_dir`
/// along `turns`, and returns the first wall met, if any is met within the
/// step bound.
pub fn cast_from(world: &WorldMap, pos: vec2, ray_dir: vec2, turns: &[Axis]) -> (hit: Option<Hit>)
    ensures
        hit == spec_cast_from(world, pos, ray_dir, turns@),
{
    cast(world, pos.x.floor(), pos.y.floor(), step_of(ray_dir.x), step_of(ray_dir.y), turns)
}

/// A camera shut in by walls sees one at once: when the four cells next to
/// the start cell hold walls, a ray that steps by one cell in either
/// direction of each axis meets a wall with its first step, whatever its
/// turns are.
pub proof fn lemma_enclosed_ray_stops_at_once(
    world: &WorldMap,
    start_x: int,
    start_y: int,
    step_x: int,
    step_y: int,
    turns: Seq<Axis>,
)
    requires
        step_x == 1 || step_x == -1,
        step_y == 1 || step_y == -1,
        turns.len() >= 1,
        world.wall_at(start_x - 1, start_y),
        world.wall_at(start_x + 1, start_y),
        world.wall_at(start_x, start_y - 1),
        world.wall_at(start_x, start_y + 1),
    ensures
        ({
            let at = cell_after(start_x, start_y, step_x, step_y, turns, 1);
            world.wall_at(at.0, at.1)
        }),
        !clear_for(world, start_x, start_y, step_x, step_y, turns, step_bound(turns)),
        spec_cast(world, start_x, start_y, step_x, step_y, turns).is_some(),
        spec_cast(world, start_x, start_y, step_x, step_y, turns).unwrap().steps == 1,
{
    reveal_with_fuel(turns_along_x, 2);
    let at = cell_after(start_x, start_y, step_x, step_y, turns, 1);
    assert(world.wall_at(at.0, at.1));
}

} // verus!
