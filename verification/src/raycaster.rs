//! The camera, its animation clock, and drawing a frame.

use vstd::prelude::*;
use crate::error::RenderError;
use crate::fog::blends_all;
use crate::frame::Viewport;
use crate::frame::check_viewport;
use crate::frame::frame_pixel;
use crate::frame::in_viewport;
use crate::frame::lemma_frame_pixel_bounds;
use crate::frame::set_column;
use crate::frame::viewport_fits;
use crate::frame::viewport_verdict;
use crate::math::vec2;
use crate::pipeline::ColumnPlan;
use crate::pipeline::check_column;
use crate::pipeline::column_drawn;
use crate::pipeline::column_verdict;
use crate::pipeline::draw_column;
use crate::pixel::pixel;
use crate::scalar::Scalar;
use crate::worldmap::WorldMap;

verus! {

/// Bit pattern of `5.0`: a new camera stands at `(5, 5)`.
pub const START_POSITION_BITS: u32 = 0x40a0_0000;

/// Bit pattern of `-1.0`: a new camera looks along negative x.
pub const START_DIRECTION_BITS: u32 = 0xbf80_0000;

/// Bit pattern of `0.66`: the length of a new camera's plane, which sets
/// its field of view.
pub const START_PLANE_BITS: u32 = 0x3f28_f5c3;

/// Milliseconds between two animation frames of a new camera.
pub const DEFAULT_ANIM_TIME: u128 = 250;

/// The camera and the clock that animates tiles.
pub struct Raycaster {
    /// When the last frame was finished, in milliseconds; 0 before the
    /// first.
    pub time: u128,
    /// When the frame before the last was finished.
    pub old_time: u128,
    /// How far a step moves the camera, in cells.
    pub move_speed: Scalar,
    /// How far a turn turns it, in radians.
    pub rot_speed: Scalar,
    pub pos: vec2,
    pub dir: vec2,
    pub plane: vec2,
    /// Milliseconds gathered toward the next animation frame.
    pub anim_curr_time: u128,
    /// Milliseconds between two animation frames.
    pub anim_time: u128,
    /// The animation frames shown so far, counted with wrap-around.
    pub anim_counter: usize,
}

/// The sum of two numbers, or the largest number where the sum is beyond it.
pub open spec fn capped_sum(a: u128, b: u128) -> u128 {
    if a + b > u128::MAX {
        u128::MAX
    } else {
        (a + b) as u128
    }
}

/// The buffer into which a column is drawn: `height` pixels of zeros. None
/// of them shows in the frame, since the backdrop paints every row.
pub open spec fn blank(height: int) -> Seq<u8> {
    Seq::new((4 * height) as nat, |i: int| 0u8)
}

/// The first reason, if any, for which one of the first `n` columns cannot
/// be drawn.
pub open spec fn columns_verdict(
    world: &WorldMap,
    pos: vec2,
    anim_counter: usize,
    width: int,
    height: int,
    plans: Seq<ColumnPlan>,
    n: int,
) -> Result<(), RenderError>
    decreases n,
{
    if n <= 0 {
        Ok(())
    } else {
        match columns_verdict(world, pos, anim_counter, width, height, plans, n - 1) {
            Err(e) => Err(e),
            Ok(_) => column_verdict(world, pos, anim_counter, width, height, 4 * height, plans[n - 1]),
        }
    }
}

/// Whether a frame can be drawn, and if not, the first reason why: the
/// viewport must lie in the frame, there must be one plan for each of its
/// columns, and each column must be drawable.
pub open spec fn frame_verdict(
    world: &WorldMap,
    pos: vec2,
    anim_counter: usize,
    rect: Viewport,
    stride: int,
    len: int,
    plans: Seq<ColumnPlan>,
) -> Result<(), RenderError> {
    match viewport_verdict(rect, stride, len) {
        Err(e) => Err(e),
        Ok(_) => if plans.len() != rect.2 {
            Err(RenderError::PlanMismatch)
        } else {
            columns_verdict(world, pos, anim_counter, rect.2 as int, rect.3 as int, plans, rect.2 as int)
        },
    }
}

/// `after` is the frame `before` with the viewport drawn: `lines[x]` is
/// column `x`, drawn from its plan over a blank column; each pixel of the
/// viewport is the pixel of its column in its row; and no byte outside the
/// viewport has changed.
pub open spec fn frame_columns<
    F: Fn([u8; 4], [u8; 4], Scalar) -> [u8; 4],
    G: Fn([u8; 4], [u8; 4], Scalar) -> [u8; 4],
>(
    blend: &F,
    blend_sprite: &G,
    world: &WorldMap,
    pos: vec2,
    anim_counter: usize,
    rect: Viewport,
    stride: int,
    plans: Seq<ColumnPlan>,
    lines: Seq<Seq<u8>>,
    before: Seq<u8>,
    after: Seq<u8>,
) -> bool {
    &&& lines.len() == rect.2
    &&& after.len() == before.len()
    &&& forall|x: int|
        0 <= x < rect.2 ==> column_drawn(
            blend,
            blend_sprite,
            world,
            pos,
            anim_counter,
            x,
            rect.2 as int,
            rect.3 as int,
            plans[x],
            blank(rect.3 as int),
            #[trigger] lines[x],
        )
    &&& forall|x: int, y: int|
        0 <= x < rect.2 && 0 <= y < rect.3 ==> pixel(
            after,
            #[trigger] frame_pixel(rect, stride, x, y),
        ) == pixel(lines[x], y)
    &&& forall|i: int|
        0 <= i < before.len() && !in_viewport(rect, stride, i) ==> after[i] == before[i]
}

/// `after` is the frame `before` with the viewport drawn from `plans`.
pub open spec fn frame_drawn<
    F: Fn([u8; 4], [u8; 4], Scalar) -> [u8; 4],
    G: Fn([u8; 4], [u8; 4], Scalar) -> [u8; 4],
>(
    blend: &F,
    blend_sprite: &G,
    world: &WorldMap,
    pos: vec2,
    anim_counter: usize,
    rect: Viewport,
    stride: int,
    plans: Seq<ColumnPlan>,
    before: Seq<u8>,
    after: Seq<u8>,
) -> bool {
    exists|lines: Seq<Seq<u8>>| #[trigger]
        frame_columns(
            blend,
            blend_sprite,
            world,
            pos,
            anim_counter,
            rect,
            stride,
            plans,
            lines,
            before,
            after,
        )
}

/// Once a column cannot be drawn, the verdict on any longer run of columns
/// is the same.
pub proof fn lemma_columns_verdict_sticks(
    world: &WorldMap,
    pos: vec2,
    anim_counter: usize,
    width: int,
    height: int,
    plans: Seq<ColumnPlan>,
    n: int,
    m: int,
)
    requires
        0 <= n <= m,
        columns_verdict(world, pos, anim_counter, width, height, plans, n).is_err(),
    ensures
        columns_verdict(world, pos, anim_counter, width, height, plans, m) == columns_verdict(
            world,
            pos,
            anim_counter,
            width,
            height,
            plans,
            n,
        ),
    decreases m - n,
{
    if n < m {
        lemma_columns_verdict_sticks(world, pos, anim_counter, width, height, plans, n, m - 1);
    }
}

/// When the columns can all be drawn, each of them can.
pub proof fn lemma_columns_verdict_each(
    world: &WorldMap,
    pos: vec2,
    anim_counter: usize,
    width: int,
    height: int,
    plans: Seq<ColumnPlan>,
    n: int,
    x: int,
)
    requires
        0 <= x < n,
        columns_verdict(world, pos, anim_counter, width, height, plans, n).is_ok(),
    ensures
        column_verdict(world, pos, anim_counter, width, height, 4 * height, plans[x]).is_ok(),
    decreases n,
{
    if x < n - 1 {
        lemma_columns_verdict_each(world, pos, anim_counter, width, height, plans, n - 1, x);
    }
}

/// Different pixels of the viewport are different pixels of the frame.
pub proof fn lemma_pixels_apart(rect: Viewport, stride: int, x1: int, y1: int, x2: int, y2: int)
    requires
        rect.0 + rect.2 <= stride,
        0 <= x1 < rect.2,
        0 <= x2 < rect.2,
        0 <= y1,
        0 <= y2,
        x1 != x2 || y1 != y2,
    ensures
        frame_pixel(rect, stride, x1, y1) != frame_pixel(rect, stride, x2, y2),
{
    if y1 < y2 {
        assert((rect.1 + y1) * stride + stride <= (rect.1 + y2) * stride) by (nonlinear_arith)
            requires
                y1 + 1 <= y2,
                0 <= stride,
        ;
    } else if y2 < y1 {
        assert((rect.1 + y2) * stride + stride <= (rect.1 + y1) * stride) by (nonlinear_arith)
            requires
                y2 + 1 <= y1,
                0 <= stride,
        ;
    }
}

impl Raycaster {
    /// A camera at `(5, 5)` that looks along negative x, at rest, with an
    /// animation frame every 250 milliseconds.
    pub fn new() -> (caster: Raycaster)
        ensures
            caster.pos.x.bits == START_POSITION_BITS,
            caster.pos.y.bits == START_POSITION_BITS,
            caster.dir.x.bits == START_DIRECTION_BITS,
            caster.dir.y.bits == 0,
            caster.plane.x.bits == 0,
            caster.plane.y.bits == START_PLANE_BITS,
            caster.time == 0,
            caster.old_time == 0,
            caster.move_speed.bits == 0,
            caster.rot_speed.bits == 0,
            caster.anim_curr_time == 0,
            caster.anim_time == DEFAULT_ANIM_TIME,
            caster.anim_counter == 0,
    {
        Raycaster {
            pos: vec2::new(
                Scalar::from_bits(START_POSITION_BITS),
                Scalar::from_bits(START_POSITION_BITS),
            ),
            dir: vec2::new(Scalar::from_bits(START_DIRECTION_BITS), Scalar::zero()),
            plane: vec2::new(Scalar::zero(), Scalar::from_bits(START_PLANE_BITS)),
            time: 0,
            old_time: 0,
            move_speed: Scalar::zero(),
            rot_speed: Scalar::zero(),
            anim_curr_time: 0,
            anim_time: DEFAULT_ANIM_TIME,
            anim_counter: 0,
        }
    }

    /// Puts the camera at the corner of the cell `(x, y)`, whatever stands
    /// there.
    pub fn set_pos(&mut self, x: i32, y: i32)
        ensures
            *final(self) == (Raycaster {
                pos: vec2 { x: Scalar::spec_from_i32(x), y: Scalar::spec_from_i32(y) },
                ..*old(self)
            }),
    {
        self.pos.x = Scalar::from_i32(x);
        self.pos.y = Scalar::from_i32(y);
    }

    /// Puts the camera at the point `(x, y)`, whatever stands there.
    pub fn place(&mut self, x: Scalar, y: Scalar)
        ensures
            *final(self) == (Raycaster { pos: vec2 { x, y }, ..*old(self) }),
    {
        self.pos.x = x;
        self.pos.y = y;
    }

    /// Sets the time between two animation frames, in milliseconds.
    pub fn set_anim_time(&mut self, time: u16)
        ensures
            *final(self) == (Raycaster { anim_time: time as u128, ..*old(self) }),
    {
        self.anim_time = time as u128;
    }

    /// Sets how far a step moves and a turn turns.
    pub fn set_speeds(&mut self, move_speed: Scalar, rot_speed: Scalar)
        ensures
            *final(self) == (Raycaster { move_speed, rot_speed, ..*old(self) }),
    {
        self.move_speed = move_speed;
        self.rot_speed = rot_speed;
    }

    /// Turns the camera: sets the direction it looks in and its plane.
    pub fn set_heading(&mut self, dir: vec2, plane: vec2)
        ensures
            *final(self) == (Raycaster { dir, plane, ..*old(self) }),
    {
        self.dir = dir;
        self.plane = plane;
    }

    /// The camera after the animation clock is stepped at the start of a
    /// frame: once more than one period has gathered, one period is taken
    /// off and the next animation frame is shown.
    pub open spec fn spec_begin_frame(self) -> Raycaster {
        if self.anim_curr_time > self.anim_time {
            Raycaster {
                anim_curr_time: (self.anim_curr_time - self.anim_time) as u128,
                anim_counter: if self.anim_counter == usize::MAX {
                    0
                } else {
                    (self.anim_counter + 1) as usize
                },
                ..self
            }
        } else {
            self
        }
    }

    /// Steps the animation clock at the start of a frame.
    pub fn begin_frame(&mut self)
        ensures
            *final(self) == old(self).spec_begin_frame(),
    {
        if self.anim_curr_time > self.anim_time {
            self.anim_curr_time = self.anim_curr_time - self.anim_time;
            self.anim_counter = if self.anim_counter == usize::MAX {
                0
            } else {
                self.anim_counter + 1
            };
        }
    }

    /// The milliseconds between the last frame and `now`; none where the
    /// clock has gone back.
    pub open spec fn spec_elapsed(self, now: u128) -> u128 {
        if now >= self.time {
            (now - self.time) as u128
        } else {
            0
        }
    }

    /// The camera after a frame is finished at `now`: the time of the last
    /// frame becomes that of the frame before, `now` that of the last, and
    /// from the second frame on the time between the two is gathered toward
    /// the next animation frame.
    pub open spec fn spec_end_frame(self, now: u128) -> Raycaster {
        Raycaster {
            old_time: self.time,
            time: now,
            anim_curr_time: if self.time > 0 {
                capped_sum(self.anim_curr_time, self.spec_elapsed(now))
            } else {
                self.anim_curr_time
            },
            ..self
        }
    }

    /// Finishes a frame at `now`, in milliseconds, and returns the
    /// milliseconds since the frame before.
    pub fn end_frame(&mut self, now: u128) -> (elapsed: u128)
        ensures
            *final(self) == old(self).spec_end_frame(now),
            elapsed == old(self).spec_elapsed(now),
    {
        let elapsed: u128 = if now >= self.time {
            now - self.time
        } else {
            0
        };
        self.old_time = self.time;
        self.time = now;
        if self.old_time > 0 {
            self.anim_curr_time = if self.anim_curr_time > u128::MAX - elapsed {
                u128::MAX
            } else {
                self.anim_curr_time + elapsed
            };
        }
        elapsed
    }

    /// Where a camera at `pos` stands after it has tried to move to
    /// `(to_x, to_y)`: it takes the new x unless a wall stands in the cell
    /// of the new x and the old y, and then the new y unless a wall stands
    /// in the cell of the x it now has and the new y. So a wall stops the
    /// camera along one axis and lets it slide along the other. The cell
    /// of a point is that of the floors of its coordinates.
    pub open spec fn spec_slide(pos: vec2, world: &WorldMap, to_x: Scalar, to_y: Scalar) -> vec2 {
        let x = if world.wall_at(to_x.spec_floor(), pos.y.spec_floor()) {
            pos.x
        } else {
            to_x
        };
        let y = if world.wall_at(x.spec_floor(), to_y.spec_floor()) {
            pos.y
        } else {
            to_y
        };
        vec2 { x, y }
    }

    /// Moves the camera toward `(to_x, to_y)`, each axis on its own, as far
    /// as walls allow.
    pub fn slide_to(&mut self, world: &WorldMap, to_x: Scalar, to_y: Scalar)
        ensures
            *final(self) == (Raycaster {
                pos: Self::spec_slide(old(self).pos, world, to_x, to_y),
                ..*old(self)
            }),
    {
        if !world.has_wall(to_x.floor(), self.pos.y.floor()) {
            self.pos.x = to_x;
        }
        if !world.has_wall(self.pos.x.floor(), to_y.floor()) {
            self.pos.y = to_y;
        }
    }

    /// `to` is where a step of length `speed` takes a camera at `pos` that
    /// looks along `dir`: `step` gives, for each axis on its own, the
    /// coordinate reached from the camera's coordinate, its direction along
    /// the axis, and the speed.
    pub open spec fn stepped<F: Fn(Scalar, Scalar, Scalar) -> Scalar>(
        step: &F,
        pos: vec2,
        dir: vec2,
        speed: Scalar,
        to: vec2,
    ) -> bool {
        &&& call_ensures(step, (pos.x, dir.x, speed), to.x)
        &&& call_ensures(step, (pos.y, dir.y, speed), to.y)
    }

    /// `step` may be called with any three numbers.
    pub open spec fn steps_all<F: Fn(Scalar, Scalar, Scalar) -> Scalar>(step: &F) -> bool {
        forall|p: Scalar, d: Scalar, s: Scalar| call_requires(step, (p, d, s))
    }

    /// Steps forward: moves the camera along its direction by its speed, as
    /// far as walls allow. `step` does the arithmetic: for position `p`,
    /// direction `d` and speed `s` along one axis it is to give `p + d * s`.
    pub fn go_forward<F: Fn(Scalar, Scalar, Scalar) -> Scalar>(
        &mut self,
        world: &WorldMap,
        step: &F,
    )
        requires
            Self::steps_all(step),
        ensures
            exists|to: vec2|
                {
                    &&& #[trigger] Self::stepped(
                        step,
                        old(self).pos,
                        old(self).dir,
                        old(self).move_speed,
                        to,
                    )
                    &&& *final(self) == (Raycaster {
                        pos: Self::spec_slide(old(self).pos, world, to.x, to.y),
                        ..*old(self)
                    })
                },
    {
        let to_x = step(self.pos.x, self.dir.x, self.move_speed);
        let to_y = step(self.pos.y, self.dir.y, self.move_speed);
        proof {
            let to = vec2 { x: to_x, y: to_y };
            assert(Self::stepped(step, self.pos, self.dir, self.move_speed, to));
        }
        self.slide_to(world, to_x, to_y);
    }

    /// Steps backward: moves the camera against its direction by its speed,
    /// as far as walls allow. `step` is given the speed with its sign
    /// turned, and is otherwise that of `go_forward`.
    pub fn go_backward<F: Fn(Scalar, Scalar, Scalar) -> Scalar>(
        &mut self,
        world: &WorldMap,
        step: &F,
    )
        requires
            Self::steps_all(step),
        ensures
            exists|to: vec2|
                {
                    &&& #[trigger] Self::stepped(
                        step,
                        old(self).pos,
                        old(self).dir,
                        old(self).move_speed.spec_neg(),
                        to,
                    )
                    &&& *final(self) == (Raycaster {
                        pos: Self::spec_slide(old(self).pos, world, to.x, to.y),
                        ..*old(self)
                    })
                },
    {
        let back = self.move_speed.neg();
        let to_x = step(self.pos.x, self.dir.x, back);
        let to_y = step(self.pos.y, self.dir.y, back);
        proof {
            let to = vec2 { x: to_x, y: to_y };
            assert(Self::stepped(step, self.pos, self.dir, back, to));
        }
        self.slide_to(world, to_x, to_y);
    }

    /// `rotate` may be called with any vector and any angle.
    pub open spec fn rotates_all<F: Fn(vec2, Scalar) -> vec2>(rotate: &F) -> bool {
        forall|v: vec2, angle: Scalar| call_requires(rotate, (v, angle))
    }

    /// Turns left: turns the direction and the plane of the camera, one after
    /// the other and by the same angle, which is the camera's turning speed.
    /// `rotate` does the arithmetic: it is to turn a vector by an angle,
    /// counter-clockwise for a positive one.
    pub fn turn_left<F: Fn(vec2, Scalar) -> vec2>(&mut self, rotate: &F)
        requires
            Self::rotates_all(rotate),
        ensures
            call_ensures(rotate, (old(self).dir, old(self).rot_speed), final(self).dir),
            call_ensures(rotate, (old(self).plane, old(self).rot_speed), final(self).plane),
            *final(self) == (Raycaster {
                dir: final(self).dir,
                plane: final(self).plane,
                ..*old(self)
            }),
    {
        let dir = rotate(self.dir, self.rot_speed);
        let plane = rotate(self.plane, self.rot_speed);
        self.set_heading(dir, plane);
    }

    /// Turns right: as `turn_left`, by the angle with its sign turned.
    pub fn turn_right<F: Fn(vec2, Scalar) -> vec2>(&mut self, rotate: &F)
        requires
            Self::rotates_all(rotate),
        ensures
            call_ensures(
                rotate,
                (old(self).dir, old(self).rot_speed.spec_neg()),
                final(self).dir,
            ),
            call_ensures(
                rotate,
                (old(self).plane, old(self).rot_speed.spec_neg()),
                final(self).plane,
            ),
            *final(self) == (Raycaster {
                dir: final(self).dir,
                plane: final(self).plane,
                ..*old(self)
            }),
    {
        let angle = self.rot_speed.neg();
        let dir = rotate(self.dir, angle);
        let plane = rotate(self.plane, angle);
        self.set_heading(dir, plane);
    }

    /// Draws the viewport `rect` of a frame whose rows are `stride` pixels
    /// long, column after column, each from its plan and as the animation
    /// stands. `blend` fades backdrop and walls into the fog and
    /// `blend_sprite` the sprites.
    ///
    /// Nothing is written unless the whole viewport can be drawn; then every
    /// pixel of the viewport is written and nothing else.
    pub fn render_st<
        F: Fn([u8; 4], [u8; 4], Scalar) -> [u8; 4],
        G: Fn([u8; 4], [u8; 4], Scalar) -> [u8; 4],
    >(
        &self,
        frame: &mut [u8],
        rect: Viewport,
        stride: usize,
        world: &WorldMap,
        plans: &[ColumnPlan],
        blend: &F,
        blend_sprite: &G,
    ) -> (done: Result<(), RenderError>)
        requires
            blends_all(blend),
            blends_all(blend_sprite),
        ensures
            done == frame_verdict(
                world,
                self.pos,
                self.anim_counter,
                rect,
                stride as int,
                old(frame)@.len() as int,
                plans@,
            ),
            final(frame)@.len() == old(frame)@.len(),
            done.is_err() ==> final(frame)@ == old(frame)@,
            done.is_ok() ==> frame_drawn(
                blend,
                blend_sprite,
                world,
                self.pos,
                self.anim_counter,
                rect,
                stride as int,
                plans@,
                old(frame)@,
                final(frame)@,
            ),
    {
        let len: usize = frame.len();
        match check_viewport(rect, stride, len) {
            Err(e) => {
                return Err(e);
            },
            Ok(_) => {},
        }
        let width: usize = rect.2;
        let height: usize = rect.3;
        if plans.len() != width {
            return Err(RenderError::PlanMismatch);
        }
        let anim_counter: usize = self.anim_counter;
        let pos: vec2 = self.pos;
        if width == 0 {
            proof {
                let lines = Seq::<Seq<u8>>::empty();
                assert(frame_columns(
                    blend,
                    blend_sprite,
                    world,
                    pos,
                    anim_counter,
                    rect,
                    stride as int,
                    plans@,
                    lines,
                    frame@,
                    frame@,
                ));
            }
            return Ok(());
        }
        if height > 0 {
            assert(4 * height <= len) by (nonlinear_arith)
                requires
                    ((rect.1 + height - 1) * stride + rect.0 + width) * 4 <= len,
                    stride >= 1,
                    rect.0 >= 0,
                    rect.1 >= 0,
                    width >= 1,
                    height >= 1,
            ;
        }
        let room: usize = 4 * height;
        let mut x: usize = 0;
        while x < width
            invariant
                x <= width,
                width == rect.2,
                height == rect.3,
                room == 4 * height,
                plans@.len() == width,
                anim_counter == self.anim_counter,
                pos == self.pos,
                len == old(frame)@.len(),
                frame@ == old(frame)@,
                viewport_verdict(rect, stride as int, len as int).is_ok(),
                columns_verdict(
                    world,
                    pos,
                    anim_counter,
                    width as int,
                    height as int,
                    plans@,
                    x as int,
                ).is_ok(),
            decreases width - x,
        {
            match check_column(world, pos, anim_counter, width, height, room, &plans[x]) {
                Err(e) => {
                    proof {
                        assert(columns_verdict(
                            world,
                            pos,
                            anim_counter,
                            width as int,
                            height as int,
                            plans@,
                            x + 1,
                        ) == Err::<(), RenderError>(e));
                        lemma_columns_verdict_sticks(
                            world,
                            pos,
                            anim_counter,
                            width as int,
                            height as int,
                            plans@,
                            x + 1,
                            width as int,
                        );
                    }
                    return Err(e);
                },
                Ok(_) => {},
            }
            x = x + 1;
        }
        let ghost mut lines: Seq<Seq<u8>> = Seq::empty();
        let mut x: usize = 0;
        while x < width
            invariant
                x <= width,
                width == rect.2,
                height == rect.3,
                room == 4 * height,
                anim_counter == self.anim_counter,
                pos == self.pos,
                plans@.len() == width,
                blends_all(blend),
                blends_all(blend_sprite),
                viewport_fits(rect, stride as int, len as int),
                frame@.len() == len,
                old(frame)@.len() == len,
                columns_verdict(
                    world,
                    pos,
                    anim_counter,
                    width as int,
                    height as int,
                    plans@,
                    width as int,
                ).is_ok(),
                lines.len() == x,
                forall|k: int|
                    0 <= k < x ==> column_drawn(
                        blend,
                        blend_sprite,
                        world,
                        pos,
                        anim_counter,
                        k,
                        width as int,
                        height as int,
                        plans@[k],
                        blank(height as int),
                        #[trigger] lines[k],
                    ),
                forall|k: int, y: int|
                    0 <= k < x && 0 <= y < height ==> pixel(
                        frame@,
                        #[trigger] frame_pixel(rect, stride as int, k, y),
                    ) == pixel(lines[k], y),
                forall|i: int|
                    0 <= i < len && !in_viewport(rect, stride as int, i) ==> frame@[i] == old(
                        frame,
                    )@[i],
            decreases width - x,
        {
            let ghost prev = frame@;
            let ghost prev_lines = lines;
            let mut line: Vec<u8> = vec![0u8; room];
            assert(line@ =~= blank(height as int));
            proof {
                lemma_columns_verdict_each(
                    world,
                    pos,
                    anim_counter,
                    width as int,
                    height as int,
                    plans@,
                    width as int,
                    x as int,
                );
            }
            match draw_column(
                line.as_mut_slice(),
                x,
                width,
                height,
                world,
                pos,
                anim_counter,
                &plans[x],
                blend,
                blend_sprite,
            ) {
                Err(e) => {
                    return Err(e);
                },
                Ok(_) => {},
            }
            set_column(frame, rect, stride, x, line.as_slice());
            proof {
                lines = lines.push(line@);
                assert forall|k: int, y: int| 0 <= k < x + 1 && 0 <= y < height implies pixel(
                    frame@,
                    #[trigger] frame_pixel(rect, stride as int, k, y),
                ) == pixel(lines[k], y) by {
                    if k < x {
                        let p = frame_pixel(rect, stride as int, k, y);
                        lemma_frame_pixel_bounds(rect, stride as int, len as int, k, y);
                        assert(lines[k] == prev_lines[k]);
                        assert forall|i: int| 4 * p <= i < 4 * p + 4 implies frame@[i] == prev[i] by {
                            assert forall|yy: int| 0 <= yy < rect.3 implies !(4 * #[trigger] frame_pixel(
                                rect,
                                stride as int,
                                x as int,
                                yy,
                            ) <= i < 4 * frame_pixel(rect, stride as int, x as int, yy) + 4) by {
                                lemma_pixels_apart(rect, stride as int, k, y, x as int, yy);
                            }
                        }
                        assert(pixel(frame@, p) =~= pixel(prev, p));
                    }
                }
                assert forall|i: int|
                    0 <= i < len && !in_viewport(rect, stride as int, i) implies frame@[i] == old(
                    frame,
                )@[i] by {
                    assert forall|yy: int| 0 <= yy < rect.3 implies !(4 * #[trigger] frame_pixel(
                        rect,
                        stride as int,
                        x as int,
                        yy,
                    ) <= i < 4 * frame_pixel(rect, stride as int, x as int, yy) + 4) by {
                        if 4 * frame_pixel(rect, stride as int, x as int, yy) <= i < 4 * frame_pixel(
                            rect,
                            stride as int,
                            x as int,
                            yy,
                        ) + 4 {
                            assert(in_viewport(rect, stride as int, i));
                        }
                    }
                }
            }
            x = x + 1;
        }
        proof {
            assert(frame_columns(
                blend,
                blend_sprite,
                world,
                pos,
                anim_counter,
                rect,
                stride as int,
                plans@,
                lines,
                old(frame)@,
                frame@,
            ));
        }
        Ok(())
    }
}

/// Moving to where the camera stands moves nothing: a step of no length
/// leaves the position as it is, wall or no wall.
pub proof fn lemma_slide_nowhere(pos: vec2, world: &WorldMap)
    ensures
        Raycaster::spec_slide(pos, world, pos.x, pos.y) == pos,
{
}

/// The two vectors are the same point: their components are equal as
/// numbers.
pub open spec fn same_point(a: vec2, b: vec2) -> bool {
    a.x.spec_same(b.x) && a.y.spec_same(b.y)
}

/// A camera at rest stays where it is: when its speed is zero, a step
/// forward and then a step backward leave it at the point where it stood,
/// wall or no wall. This is so for a camera whose coordinates are numbers,
/// provided that the arithmetic of `step` reaches with speed zero, of
/// either sign, the coordinate that it starts from, along the camera's
/// direction. (The sum of a number and a product with zero is that number
/// unless the direction is infinite or no number.)
pub proof fn lemma_steps_at_rest<F: Fn(Scalar, Scalar, Scalar) -> Scalar>(
    step: &F,
    world: &WorldMap,
    before: Raycaster,
    forward: vec2,
    backward: vec2,
)
    requires
        before.move_speed.magnitude() == 0,
        !before.pos.x.is_nan(),
        !before.pos.y.is_nan(),
        forall|p: Scalar, s: Scalar, to: Scalar|
            s.magnitude() == 0 && !p.is_nan() && call_ensures(step, (p, before.dir.x, s), to)
                ==> to.spec_same(p),
        forall|p: Scalar, s: Scalar, to: Scalar|
            s.magnitude() == 0 && !p.is_nan() && call_ensures(step, (p, before.dir.y, s), to)
                ==> to.spec_same(p),
        Raycaster::stepped(step, before.pos, before.dir, before.move_speed, forward),
        Raycaster::stepped(
            step,
            Raycaster::spec_slide(before.pos, world, forward.x, forward.y),
            before.dir,
            before.move_speed.spec_neg(),
            backward,
        ),
    ensures
        same_point(Raycaster::spec_slide(before.pos, world, forward.x, forward.y), before.pos),
        same_point(
            Raycaster::spec_slide(
                Raycaster::spec_slide(before.pos, world, forward.x, forward.y),
                world,
                backward.x,
                backward.y,
            ),
            before.pos,
        ),
{
    assert(same_point(forward, before.pos));
    let halfway = Raycaster::spec_slide(before.pos, world, forward.x, forward.y);
    assert(same_point(halfway, before.pos));
    assert(before.move_speed.spec_neg().magnitude() == 0);
    assert(same_point(backward, halfway));
}

} // verus!
