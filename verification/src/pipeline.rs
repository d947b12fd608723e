//! A whole column: backdrop, wall and sprites, one over the other.

use vstd::prelude::*;
use crate::column::RowSample;
use crate::column::SpriteStripe;
use crate::column::WallStripe;
use crate::column::backdrop_drawn;
use crate::column::backdrop_verdict;
use crate::column::check_backdrop;
use crate::column::check_sprite;
use crate::column::check_wall;
use crate::column::draw_backdrop;
use crate::column::draw_sprite;
use crate::column::draw_wall;
use crate::column::Face;
use crate::column::sprite_drawn;
use crate::column::sprite_row;
use crate::column::sprite_verdict;
use crate::column::wall_drawn;
use crate::column::wall_tile;
use crate::column::wall_verdict;
use crate::error::RenderError;
use crate::fog::blends_all;
use crate::math::vec2;
use crate::pixel::pixel;
use crate::ray::Axis;
use crate::ray::Hit;
use crate::ray::MAX_STEPS;
use crate::ray::lemma_enclosed_ray_stops_at_once;
use crate::ray::lemma_turns_fill_the_bound;
use crate::ray::cast_from;
use crate::ray::clear_for;
use crate::ray::lemma_first_wall_skips;
use crate::ray::spec_cast_from;
use crate::ray::spec_step;
use crate::ray::spec_turns;
use crate::ray::step_bound;
use crate::ray::turns_from;
use crate::scalar::MAX_BITS;
use crate::scalar::SIGN_BIT;
use crate::scalar::Scalar;
use crate::texture::spec_locate;
use crate::tile::Tile;
use crate::worldmap::WorldMap;

verus! {

/// Everything that the caller has computed for one column of the screen.
#[derive(Clone, Debug, PartialEq)]
pub struct ColumnPlan {
    /// One sample for each row from the horizon down, where the floor or the
    /// ceiling is textured.
    pub samples: Vec<RowSample>,
    /// The direction of the column's ray.
    pub ray_dir: vec2,
    /// The distances, along the ray, to the grid lines that it crosses along
    /// x, nearest first: at least as many as the step bound.
    pub reach_x: Vec<Scalar>,
    /// The distances, along the ray, to the grid lines that it crosses along
    /// y, nearest first: at least as many as the step bound.
    pub reach_y: Vec<Scalar>,
    /// The stripe of the wall that the ray meets, if it meets one.
    pub wall: Option<WallStripe>,
    /// One stripe for each sprite of the world, in the order of the world's
    /// list.
    pub sprites: Vec<SpriteStripe>,
}

impl ColumnPlan {
    /// The turns of the plan's ray: the order in which it crosses grid
    /// lines.
    pub open spec fn spec_turns(&self) -> Seq<Axis> {
        spec_turns(self.reach_x@, self.reach_y@, 0, 0)
    }

    /// What the walk of the plan's ray finds when it leaves `pos`.
    pub open spec fn spec_hit(&self, world: &WorldMap, pos: vec2) -> Option<Hit> {
        spec_cast_from(world, pos, self.ray_dir, self.spec_turns())
    }

    /// Walks the plan's ray from `pos` and returns the first wall that it
    /// meets, if it meets one.
    pub fn hit(&self, world: &WorldMap, pos: vec2) -> (hit: Option<Hit>)
        ensures
            hit == self.spec_hit(world, pos),
    {
        let turns = turns_from(self.reach_x.as_slice(), self.reach_y.as_slice());
        cast_from(world, pos, self.ray_dir, turns.as_slice())
    }

    /// The face of the wall that the plan's ray meets when it leaves `pos`,
    /// if it meets one.
    pub open spec fn spec_face(&self, world: &WorldMap, pos: vec2) -> Option<Face> {
        match self.spec_hit(world, pos) {
            Some(hit) => Some(
                Face {
                    cell_x: hit.cell_x,
                    cell_y: hit.cell_y,
                    side: hit.side,
                    ray_dir: self.ray_dir,
                },
            ),
            None => None,
        }
    }

    /// Walks the plan's ray from `pos` and returns the face of the wall that
    /// it meets, if it meets one.
    pub fn face(&self, world: &WorldMap, pos: vec2) -> (face: Option<Face>)
        ensures
            face == self.spec_face(world, pos),
    {
        match self.hit(world, pos) {
            Some(hit) => Some(
                Face {
                    cell_x: hit.cell_x,
                    cell_y: hit.cell_y,
                    side: hit.side,
                    ray_dir: self.ray_dir,
                },
            ),
            None => None,
        }
    }

    /// The depth behind which nothing shows in the column: that of the wall,
    /// or the largest number where there is no wall.
    pub open spec fn spec_wall_depth(&self) -> Scalar {
        match self.wall {
            Some(stripe) => stripe.depth,
            None => Scalar { bits: MAX_BITS },
        }
    }

    /// The depth behind which nothing shows in the column.
    pub fn wall_depth(&self) -> (depth: Scalar)
        ensures
            depth == self.spec_wall_depth(),
    {
        match &self.wall {
            Some(stripe) => stripe.depth,
            None => Scalar::max_value(),
        }
    }
}

/// The first reason, if any, for which one of the first `n` sprites of the
/// world cannot be drawn.
pub open spec fn sprites_verdict(
    world: &WorldMap,
    anim_counter: usize,
    width: int,
    height: int,
    len: int,
    n: int,
) -> Result<(), RenderError>
    decreases n,
{
    if n <= 0 {
        Ok(())
    } else {
        match sprites_verdict(world, anim_counter, width, height, len, n - 1) {
            Err(e) => Err(e),
            Ok(_) => sprite_verdict(
                world.images(),
                world.sprites()[n - 1].tile,
                anim_counter,
                width,
                height,
                len,
            ),
        }
    }
}

/// Whether the plan's wall can be drawn. The plan must hold, for each axis,
/// at least as many distances as the step bound, so that the ray can be
/// walked to the bound; and it must hold a stripe where its ray meets a
/// wall, and none where it meets none.
pub open spec fn plan_wall_verdict(
    world: &WorldMap,
    pos: vec2,
    anim_counter: usize,
    height: int,
    len: int,
    plan: ColumnPlan,
) -> Result<(), RenderError> {
    if plan.reach_x@.len() < MAX_STEPS || plan.reach_y@.len() < MAX_STEPS {
        Err(RenderError::PlanMismatch)
    } else {
        match (plan.spec_face(world, pos), plan.wall) {
            (None, None) => Ok(()),
            (Some(face), Some(stripe)) => wall_verdict(
                world.images(),
                wall_tile(world, face.cell_x, face.cell_y),
                anim_counter,
                height,
                len,
                stripe.line_height as int,
                stripe.tex_rows@.len() as int,
            ),
            _ => Err(RenderError::PlanMismatch),
        }
    }
}

/// Whether a column can be drawn, and if not, the first reason why, in the
/// order in which the column is drawn: backdrop, wall, sprites. The plan
/// must hold one stripe for each sprite of the world.
pub open spec fn column_verdict(
    world: &WorldMap,
    pos: vec2,
    anim_counter: usize,
    width: int,
    height: int,
    len: int,
    plan: ColumnPlan,
) -> Result<(), RenderError> {
    match backdrop_verdict(
        world.images(),
        world.default_ceiling(),
        world.default_floor(),
        height,
        len,
        plan.samples@.len() as int,
    ) {
        Err(e) => Err(e),
        Ok(_) => match plan_wall_verdict(world, pos, anim_counter, height, len, plan) {
            Err(e) => Err(e),
            Ok(_) => if plan.sprites@.len() != world.sprites().len() {
                Err(RenderError::PlanMismatch)
            } else {
                sprites_verdict(
                    world,
                    anim_counter,
                    width,
                    height,
                    len,
                    world.sprites().len() as int,
                )
            },
        },
    }
}

/// A column after the plan's wall is drawn over `before`. Where the ray
/// meets no wall the column is as it was.
pub open spec fn plan_wall_drawn<F: Fn([u8; 4], [u8; 4], Scalar) -> [u8; 4]>(
    blend: &F,
    world: &WorldMap,
    pos: vec2,
    anim_counter: usize,
    height: int,
    plan: ColumnPlan,
    before: Seq<u8>,
    after: Seq<u8>,
) -> bool {
    match (plan.spec_face(world, pos), plan.wall) {
        (Some(face), Some(stripe)) => wall_drawn(
            blend,
            world,
            anim_counter,
            height,
            face,
            stripe,
            before,
            after,
        ),
        _ => after == before,
    }
}

/// The number by which a sprite's depth orders it among the sprites: the
/// rank of the depth, and 0 for a depth that is no number. Of two depths
/// that are numbers the greater one has the greater key.
pub open spec fn depth_key(depth: Scalar) -> int {
    if depth.is_nan() {
        0
    } else {
        depth.rank()
    }
}

/// Sprite `a` is drawn before sprite `b`: it stands farther from the camera,
/// or as far and earlier in the list. Sprites are drawn from the farthest to
/// the nearest, so that the nearer covers the farther.
pub open spec fn drawn_before(sprites: Seq<SpriteStripe>, a: int, b: int) -> bool {
    depth_key(sprites[a].depth) > depth_key(sprites[b].depth) || (depth_key(sprites[a].depth)
        == depth_key(sprites[b].depth) && a < b)
}

/// `order` names sprite `i` among those to draw.
pub open spec fn names(order: Seq<usize>, i: int) -> bool {
    exists|p: int| 0 <= p < order.len() && #[trigger] order[p] == i
}

/// `order` is the order in which the sprites are drawn: it names each
/// sprite once, by its place in the list, and each sprite that it names is
/// drawn before those that it names later.
pub open spec fn is_draw_order(sprites: Seq<SpriteStripe>, order: Seq<usize>) -> bool {
    &&& order.len() == sprites.len()
    &&& forall|p: int| 0 <= p < order.len() ==> (#[trigger] order[p]) < sprites.len()
    &&& forall|i: int| 0 <= i < sprites.len() ==> #[trigger] names(order, i)
    &&& forall|p: int, q: int|
        0 <= p < q < order.len() ==> drawn_before(
            sprites,
            #[trigger] order[p] as int,
            #[trigger] order[q] as int,
        )
}

/// The key by which a sprite's depth orders it.
fn depth_key_of(depth: Scalar) -> (key: i64)
    ensures
        key == depth_key(depth),
{
    if depth.is_not_a_number() {
        0
    } else if depth.bits >= SIGN_BIT {
        -((depth.bits - SIGN_BIT) as i64)
    } else {
        depth.bits as i64
    }
}

/// Computes the order in which the sprites are drawn, from the farthest to
/// the nearest.
pub fn draw_order(sprites: &[SpriteStripe]) -> (order: Vec<usize>)
    ensures
        is_draw_order(sprites@, order@),
{
    let mut order: Vec<usize> = Vec::new();
    let mut i: usize = 0;
    while i < sprites.len()
        invariant
            i <= sprites@.len(),
            order@.len() == i,
            forall|p: int| 0 <= p < order@.len() ==> (#[trigger] order@[p]) < i,
            forall|j: int| 0 <= j < i ==> #[trigger] names(order@, j),
            forall|p: int, q: int|
                0 <= p < q < order@.len() ==> drawn_before(
                    sprites@,
                    #[trigger] order@[p] as int,
                    #[trigger] order@[q] as int,
                ),
        decreases sprites@.len() - i,
    {
        let key: i64 = depth_key_of(sprites[i].depth);
        let mut at: usize = 0;
        while at < order.len() && depth_key_of(sprites[order[at]].depth) >= key
            invariant
                at <= order@.len(),
                i < sprites@.len(),
                key == depth_key(sprites@[i as int].depth),
                forall|p: int| 0 <= p < order@.len() ==> (#[trigger] order@[p]) < i,
                forall|q: int|
                    0 <= q < at ==> drawn_before(sprites@, #[trigger] order@[q] as int, i as int),
            decreases order@.len() - at,
        {
            at = at + 1;
        }
        let ghost before = order@;
        order.insert(at, i);
        proof {
            assert forall|j: int| 0 <= j < i + 1 implies #[trigger] names(order@, j) by {
                if j == i {
                    assert(order@[at as int] == j);
                } else {
                    assert(names(before, j));
                    let p = choose|p: int| 0 <= p < before.len() && #[trigger] before[p] == j;
                    if p < at {
                        assert(order@[p] == j);
                    } else {
                        assert(order@[p + 1] == j);
                    }
                }
            }
            assert forall|p: int, q: int| 0 <= p < q < order@.len() implies drawn_before(
                sprites@,
                #[trigger] order@[p] as int,
                #[trigger] order@[q] as int,
            ) by {
                if q < at {
                    assert(order@[p] == before[p] && order@[q] == before[q]);
                } else if q == at {
                    assert(order@[p] == before[p]);
                } else if p < at {
                    assert(order@[p] == before[p] && order@[q] == before[q - 1]);
                } else if p == at {
                    assert(order@[q] == before[q - 1]);
                    assert(drawn_before(sprites@, before[at as int] as int, before[q - 1] as int)
                        || q - 1 == at);
                } else {
                    assert(order@[p] == before[p - 1] && order@[q] == before[q - 1]);
                }
            }
        }
        i = i + 1;
    }
    order
}

/// The states that a column goes through while it is drawn: `stages[0]` is
/// the column before, `stages[1]` has the backdrop, `stages[2]` the wall
/// over it, and each further stage one more sprite, in the order `order`,
/// which is that of their depths: the farthest sprite is drawn first.
pub open spec fn column_stages<
    F: Fn([u8; 4], [u8; 4], Scalar) -> [u8; 4],
    G: Fn([u8; 4], [u8; 4], Scalar) -> [u8; 4],
>(
    blend: &F,
    blend_sprite: &G,
    world: &WorldMap,
    pos: vec2,
    anim_counter: usize,
    x: int,
    width: int,
    height: int,
    plan: ColumnPlan,
    order: Seq<usize>,
    stages: Seq<Seq<u8>>,
) -> bool {
    &&& stages.len() == plan.sprites@.len() + 3
    &&& plan.sprites@.len() == world.sprites().len()
    &&& is_draw_order(plan.sprites@, order)
    &&& backdrop_drawn(blend, world, height, plan.samples@, stages[0], stages[1])
    &&& plan_wall_drawn(blend, world, pos, anim_counter, height, plan, stages[1], stages[2])
    &&& forall|i: int|
        0 <= i < plan.sprites@.len() ==> sprite_drawn(
            blend_sprite,
            world,
            anim_counter,
            x,
            width,
            height,
            world.sprites()[order[i] as int].tile,
            plan.sprites@[order[i] as int],
            plan.spec_wall_depth(),
            #[trigger] stages[i + 2],
            stages[i + 3],
        )
}

/// `after` is the column `before` with backdrop, wall and sprites drawn
/// over it, one after the other, the sprites from the farthest to the
/// nearest.
pub open spec fn column_drawn<
    F: Fn([u8; 4], [u8; 4], Scalar) -> [u8; 4],
    G: Fn([u8; 4], [u8; 4], Scalar) -> [u8; 4],
>(
    blend: &F,
    blend_sprite: &G,
    world: &WorldMap,
    pos: vec2,
    anim_counter: usize,
    x: int,
    width: int,
    height: int,
    plan: ColumnPlan,
    before: Seq<u8>,
    after: Seq<u8>,
) -> bool {
    exists|order: Seq<usize>, stages: Seq<Seq<u8>>|
        {
            &&& #[trigger] column_stages(
                blend,
                blend_sprite,
                world,
                pos,
                anim_counter,
                x,
                width,
                height,
                plan,
                order,
                stages,
            )
            &&& stages[0] == before
            &&& stages[stages.len() - 1] == after
        }
}

/// A ray that meets no wall draws none: when no wall stands in any cell
/// that the plan's ray enters within the step bound, the column is, after
/// the wall is drawn, what it was with the backdrop alone.
pub proof fn lemma_open_path_draws_no_wall<
    F: Fn([u8; 4], [u8; 4], Scalar) -> [u8; 4],
    G: Fn([u8; 4], [u8; 4], Scalar) -> [u8; 4],
>(
    blend: &F,
    blend_sprite: &G,
    world: &WorldMap,
    pos: vec2,
    anim_counter: usize,
    x: int,
    width: int,
    height: int,
    plan: ColumnPlan,
    order: Seq<usize>,
    stages: Seq<Seq<u8>>,
)
    requires
        column_stages(
            blend,
            blend_sprite,
            world,
            pos,
            anim_counter,
            x,
            width,
            height,
            plan,
            order,
            stages,
        ),
        clear_for(
            world,
            pos.x.spec_floor(),
            pos.y.spec_floor(),
            spec_step(plan.ray_dir.x),
            spec_step(plan.ray_dir.y),
            plan.spec_turns(),
            step_bound(plan.spec_turns()),
        ),
    ensures
        plan.spec_face(world, pos).is_none(),
        stages[2] == stages[1],
{
    lemma_first_wall_skips(
        world,
        pos.x.spec_floor(),
        pos.y.spec_floor(),
        spec_step(plan.ray_dir.x),
        spec_step(plan.ray_dir.y),
        plan.spec_turns(),
        1,
        step_bound(plan.spec_turns()) + 1,
    );
}

/// A camera shut in by walls sees one in every column: when the four cells
/// next to the camera's cell hold walls, the ray of every plan that can be
/// walked to the step bound meets a wall with its first step.
pub proof fn lemma_enclosed_column_meets_wall(world: &WorldMap, pos: vec2, plan: ColumnPlan)
    requires
        plan.reach_x@.len() >= MAX_STEPS,
        plan.reach_y@.len() >= MAX_STEPS,
        world.wall_at(pos.x.spec_floor() - 1, pos.y.spec_floor()),
        world.wall_at(pos.x.spec_floor() + 1, pos.y.spec_floor()),
        world.wall_at(pos.x.spec_floor(), pos.y.spec_floor() - 1),
        world.wall_at(pos.x.spec_floor(), pos.y.spec_floor() + 1),
    ensures
        plan.spec_turns().len() == MAX_STEPS,
        plan.spec_hit(world, pos).is_some(),
        plan.spec_hit(world, pos).unwrap().steps == 1,
        plan.spec_face(world, pos).is_some(),
{
    lemma_turns_fill_the_bound(plan.reach_x@, plan.reach_y@, 0, 0);
    lemma_enclosed_ray_stops_at_once(
        world,
        pos.x.spec_floor(),
        pos.y.spec_floor(),
        spec_step(plan.ray_dir.x),
        spec_step(plan.ray_dir.y),
        plan.spec_turns(),
    );
}

/// Depths that are numbers are ordered by their keys as they are as
/// numbers: the farther sprite has the greater key.
pub proof fn lemma_depth_key_orders(near: Scalar, far: Scalar)
    requires
        !near.is_nan(),
        !far.is_nan(),
    ensures
        near.spec_lt(far) <==> depth_key(near) < depth_key(far),
{
}

/// A sprite that does not stand in front of the wall leaves the column as
/// it is.
pub proof fn lemma_hidden_sprite_leaves_column<F: Fn([u8; 4], [u8; 4], Scalar) -> [u8; 4]>(
    blend: &F,
    world: &WorldMap,
    anim_counter: usize,
    x: int,
    width: int,
    height: int,
    tile: Tile,
    stripe: SpriteStripe,
    wall_depth: Scalar,
    before: Seq<u8>,
    after: Seq<u8>,
)
    requires
        sprite_drawn(
            blend,
            world,
            anim_counter,
            x,
            width,
            height,
            tile,
            stripe,
            wall_depth,
            before,
            after,
        ),
        !stripe.depth.spec_lt(wall_depth),
    ensures
        after == before,
{
    match spec_locate(world.images(), &tile, anim_counter) {
        Ok(Some(patch)) => {
            assert forall|i: int| 0 <= i < before.len() implies after[i] == before[i] by {
                if i < 4 * height {
                    let r = i / 4;
                    assert(sprite_row(
                        blend,
                        world.images(),
                        world.fog_color(),
                        patch,
                        x,
                        width,
                        height,
                        stripe,
                        wall_depth,
                        before,
                        after,
                        r,
                    ));
                    assert(pixel(after, r) == pixel(before, r));
                    assert(pixel(after, r)[i % 4] == after[i]);
                    assert(pixel(before, r)[i % 4] == before[i]);
                }
            }
            assert(after =~= before);
        },
        _ => {},
    }
}

/// What stands behind a wall does not show: when no sprite of the plan is
/// nearer than the plan's wall, the column is, after all sprites are drawn,
/// what it was when the wall was drawn.
pub proof fn lemma_wall_hides_sprites<
    F: Fn([u8; 4], [u8; 4], Scalar) -> [u8; 4],
    G: Fn([u8; 4], [u8; 4], Scalar) -> [u8; 4],
>(
    blend: &F,
    blend_sprite: &G,
    world: &WorldMap,
    pos: vec2,
    anim_counter: usize,
    x: int,
    width: int,
    height: int,
    plan: ColumnPlan,
    order: Seq<usize>,
    stages: Seq<Seq<u8>>,
    upto: int,
)
    requires
        column_stages(
            blend,
            blend_sprite,
            world,
            pos,
            anim_counter,
            x,
            width,
            height,
            plan,
            order,
            stages,
        ),
        forall|i: int|
            0 <= i < plan.sprites@.len() ==> !(#[trigger] plan.sprites@[i]).depth.spec_lt(
                plan.spec_wall_depth(),
            ),
        0 <= upto <= plan.sprites@.len(),
    ensures
        stages[upto + 2] == stages[2],
        upto == plan.sprites@.len() ==> stages[stages.len() - 1] == stages[2],
    decreases upto,
{
    if upto > 0 {
        lemma_wall_hides_sprites(
            blend,
            blend_sprite,
            world,
            pos,
            anim_counter,
            x,
            width,
            height,
            plan,
            order,
            stages,
            upto - 1,
        );
        let i = upto - 1;
        let which = order[i] as int;
        assert(sprite_drawn(
            blend_sprite,
            world,
            anim_counter,
            x,
            width,
            height,
            world.sprites()[which].tile,
            plan.sprites@[which],
            plan.spec_wall_depth(),
            stages[i + 2],
            stages[i + 3],
        ));
        lemma_hidden_sprite_leaves_column(
            blend_sprite,
            world,
            anim_counter,
            x,
            width,
            height,
            world.sprites()[which].tile,
            plan.sprites@[which],
            plan.spec_wall_depth(),
            stages[i + 2],
            stages[i + 3],
        );
    }
}

/// Tells whether column `x` can be drawn into a buffer of `len` bytes.
pub fn check_column(
    world: &WorldMap,
    pos: vec2,
    anim_counter: usize,
    width: usize,
    height: usize,
    len: usize,
    plan: &ColumnPlan,
) -> (verdict: Result<(), RenderError>)
    ensures
        verdict == column_verdict(
            world,
            pos,
            anim_counter,
            width as int,
            height as int,
            len as int,
            *plan,
        ),
{
    match check_backdrop(world, height, len, plan.samples.len()) {
        Err(e) => {
            return Err(e);
        },
        Ok(_) => {},
    }
    if plan.reach_x.len() < MAX_STEPS || plan.reach_y.len() < MAX_STEPS {
        return Err(RenderError::PlanMismatch);
    }
    match (plan.face(world, pos), &plan.wall) {
        (None, None) => {},
        (Some(face), Some(stripe)) => match check_wall(
            world,
            anim_counter,
            height,
            len,
            &face,
            stripe,
        ) {
            Err(e) => {
                return Err(e);
            },
            Ok(_) => {},
        },
        _ => {
            return Err(RenderError::PlanMismatch);
        },
    }
    let sprites = world.get_sprites();
    if plan.sprites.len() != sprites.len() {
        return Err(RenderError::PlanMismatch);
    }
    let mut i: usize = 0;
    while i < sprites.len()
        invariant
            i <= sprites@.len(),
            sprites@ == world.sprites(),
            plan.sprites@.len() == sprites@.len(),
            backdrop_verdict(
                world.images(),
                world.default_ceiling(),
                world.default_floor(),
                height as int,
                len as int,
                plan.samples@.len() as int,
            ).is_ok(),
            plan_wall_verdict(world, pos, anim_counter, height as int, len as int, *plan).is_ok(),
            sprites_verdict(
                world,
                anim_counter,
                width as int,
                height as int,
                len as int,
                i as int,
            ).is_ok(),
        decreases sprites@.len() - i,
    {
        match check_sprite(world, anim_counter, width, height, len, &sprites[i].tile) {
            Err(e) => {
                proof {
                    assert(sprites_verdict(
                        world,
                        anim_counter,
                        width as int,
                        height as int,
                        len as int,
                        i + 1,
                    ) == Err::<(), RenderError>(e));
                    lemma_sprites_verdict_sticks(
                        world,
                        anim_counter,
                        width as int,
                        height as int,
                        len as int,
                        i + 1,
                        sprites@.len() as int,
                    );
                }
                return Err(e);
            },
            Ok(_) => {},
        }
        i = i + 1;
    }
    Ok(())
}

/// Once a sprite cannot be drawn, the verdict on any longer run of sprites
/// is the same.
pub proof fn lemma_sprites_verdict_sticks(
    world: &WorldMap,
    anim_counter: usize,
    width: int,
    height: int,
    len: int,
    n: int,
    m: int,
)
    requires
        0 <= n <= m,
        sprites_verdict(world, anim_counter, width, height, len, n).is_err(),
    ensures
        sprites_verdict(world, anim_counter, width, height, len, m) == sprites_verdict(
            world,
            anim_counter,
            width,
            height,
            len,
            n,
        ),
    decreases m - n,
{
    if n < m {
        lemma_sprites_verdict_sticks(world, anim_counter, width, height, len, n, m - 1);
    }
}

/// When the sprites can all be drawn, each of them can.
pub proof fn lemma_sprites_verdict_each(
    world: &WorldMap,
    anim_counter: usize,
    width: int,
    height: int,
    len: int,
    n: int,
    i: int,
)
    requires
        0 <= i < n,
        sprites_verdict(world, anim_counter, width, height, len, n).is_ok(),
    ensures
        sprite_verdict(
            world.images(),
            world.sprites()[i].tile,
            anim_counter,
            width,
            height,
            len,
        ).is_ok(),
    decreases n,
{
    if i < n - 1 {
        lemma_sprites_verdict_each(world, anim_counter, width, height, len, n - 1, i);
    }
}

/// Draws column `x` of a screen `width` pixels wide and `height` pixels
/// high: the backdrop, over it the plan's wall, over that the world's
/// sprites from the farthest to the nearest. `blend` fades backdrop and wall
/// into the fog and `blend_sprite` the sprites.
///
/// Nothing is written unless the whole column can be drawn.
pub fn draw_column<
    F: Fn([u8; 4], [u8; 4], Scalar) -> [u8; 4],
    G: Fn([u8; 4], [u8; 4], Scalar) -> [u8; 4],
>(
    line: &mut [u8],
    x: usize,
    width: usize,
    height: usize,
    world: &WorldMap,
    pos: vec2,
    anim_counter: usize,
    plan: &ColumnPlan,
    blend: &F,
    blend_sprite: &G,
) -> (done: Result<(), RenderError>)
    requires
        blends_all(blend),
        blends_all(blend_sprite),
    ensures
        done == column_verdict(
            world,
            pos,
            anim_counter,
            width as int,
            height as int,
            old(line)@.len() as int,
            *plan,
        ),
        final(line)@.len() == old(line)@.len(),
        done.is_err() ==> final(line)@ == old(line)@,
        done.is_ok() ==> column_drawn(
            blend,
            blend_sprite,
            world,
            pos,
            anim_counter,
            x as int,
            width as int,
            height as int,
            *plan,
            old(line)@,
            final(line)@,
        ),
{
    let len: usize = line.len();
    match check_column(world, pos, anim_counter, width, height, len, plan) {
        Err(e) => {
            return Err(e);
        },
        Ok(_) => {},
    }
    let ghost mut stages: Seq<Seq<u8>> = seq![line@];
    match draw_backdrop(line, height, world, plan.samples.as_slice(), blend) {
        Err(e) => {
            return Err(e);
        },
        Ok(_) => {},
    }
    proof {
        stages = stages.push(line@);
    }
    match (plan.face(world, pos), &plan.wall) {
        (Some(face), Some(stripe)) => match draw_wall(
            line,
            height,
            world,
            anim_counter,
            &face,
            stripe,
            blend,
        ) {
            Err(e) => {
                return Err(e);
            },
            Ok(_) => {},
        },
        _ => {},
    }
    proof {
        stages = stages.push(line@);
    }
    let depth = plan.wall_depth();
    let sprites = world.get_sprites();
    let order = draw_order(plan.sprites.as_slice());
    let mut i: usize = 0;
    while i < sprites.len()
        invariant
            i <= sprites@.len(),
            sprites@ == world.sprites(),
            plan.sprites@.len() == sprites@.len(),
            is_draw_order(plan.sprites@, order@),
            blends_all(blend_sprite),
            depth == plan.spec_wall_depth(),
            line@.len() == len,
            old(line)@.len() == len,
            sprites_verdict(
                world,
                anim_counter,
                width as int,
                height as int,
                len as int,
                sprites@.len() as int,
            ).is_ok(),
            stages.len() == i + 3,
            stages[0] == old(line)@,
            stages[i + 2] == line@,
            backdrop_drawn(
                blend,
                world,
                height as int,
                plan.samples@,
                stages[0],
                stages[1],
            ),
            plan_wall_drawn(
                blend,
                world,
                pos,
                anim_counter,
                height as int,
                *plan,
                stages[1],
                stages[2],
            ),
            forall|k: int|
                0 <= k < i ==> sprite_drawn(
                    blend_sprite,
                    world,
                    anim_counter,
                    x as int,
                    width as int,
                    height as int,
                    world.sprites()[order@[k] as int].tile,
                    plan.sprites@[order@[k] as int],
                    plan.spec_wall_depth(),
                    #[trigger] stages[k + 2],
                    stages[k + 3],
                ),
        decreases sprites@.len() - i,
    {
        let which: usize = order[i];
        proof {
            lemma_sprites_verdict_each(
                world,
                anim_counter,
                width as int,
                height as int,
                len as int,
                sprites@.len() as int,
                which as int,
            );
        }
        let ghost prev = stages;
        match draw_sprite(
            line,
            x,
            width,
            height,
            world,
            anim_counter,
            &sprites[which].tile,
            &plan.sprites[which],
            depth,
            blend_sprite,
        ) {
            Err(e) => {
                return Err(e);
            },
            Ok(_) => {},
        }
        proof {
            stages = stages.push(line@);
            assert forall|k: int| 0 <= k < i + 1 implies sprite_drawn(
                blend_sprite,
                world,
                anim_counter,
                x as int,
                width as int,
                height as int,
                world.sprites()[order@[k] as int].tile,
                plan.sprites@[order@[k] as int],
                plan.spec_wall_depth(),
                #[trigger] stages[k + 2],
                stages[k + 3],
            ) by {
                if k < i {
                    assert(stages[k + 2] == prev[k + 2]);
                    assert(stages[k + 3] == prev[k + 3]);
                }
            }
        }
        i = i + 1;
    }
    proof {
        assert(column_stages(
            blend,
            blend_sprite,
            world,
            pos,
            anim_counter,
            x as int,
            width as int,
            height as int,
            *plan,
            order@,
            stages,
        ));
    }
    Ok(())
}

} // verus!
