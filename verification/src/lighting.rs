//! Building the light map from the lights.

use vstd::prelude::*;
use crate::grid::Cell;
use crate::light::Stamp;
use crate::light::light_stamps;
use crate::light::stamps_upto;
use crate::scalar::Scalar;
use crate::worldmap::WorldMap;
use crate::worldmap::WorldView;

verus! {

/// The level that a map of levels holds for a cell, if it holds one.
pub open spec fn level_at(levels: Map<Cell, Scalar>, x: i32, y: i32) -> Option<Scalar> {
    if levels.contains_key((x, y)) {
        Some(levels[(x, y)])
    } else {
        None
    }
}

/// `after` is `before` with one more stroke laid on: the stroke's cell
/// holds `level`, which is what `lay` gives for the stroke and for what the
/// cell held before; every other cell is as it was.
pub open spec fn stroke_laid<F: Fn(Stamp, Option<Scalar>) -> Scalar>(
    lay: &F,
    stamp: Stamp,
    before: Map<Cell, Scalar>,
    level: Scalar,
    after: Map<Cell, Scalar>,
) -> bool {
    &&& call_ensures(lay, (stamp, level_at(before, stamp.x, stamp.y)), level)
    &&& after == before.insert((stamp.x, stamp.y), level)
}

/// `levels` is what the first `n` strokes give when they are laid, one
/// after the other, on an empty map.
pub open spec fn strokes_laid<F: Fn(Stamp, Option<Scalar>) -> Scalar>(
    lay: &F,
    stamps: Seq<Stamp>,
    n: int,
    levels: Map<Cell, Scalar>,
) -> bool
    decreases n,
{
    if n <= 0 {
        levels == Map::<Cell, Scalar>::empty()
    } else {
        exists|before: Map<Cell, Scalar>, level: Scalar|
            strokes_laid(lay, stamps, n - 1, before) && #[trigger] stroke_laid(
                lay,
                stamps[n - 1],
                before,
                level,
                levels,
            )
    }
}

/// `levels` is a light map of the lights in `lights`: what their strokes
/// give, light after light in the order of the list.
pub open spec fn lit_by<F: Fn(Stamp, Option<Scalar>) -> Scalar>(
    lay: &F,
    lights: Seq<(i32, i32, i32)>,
    levels: Map<Cell, Scalar>,
) -> bool {
    strokes_laid(
        lay,
        stamps_upto(lights, lights.len() as int),
        stamps_upto(lights, lights.len() as int).len() as int,
        levels,
    )
}

/// `lay` may be called with any stroke and any level.
pub open spec fn lays_all<F: Fn(Stamp, Option<Scalar>) -> Scalar>(lay: &F) -> bool {
    forall|stamp: Stamp, level: Option<Scalar>| call_requires(lay, (stamp, level))
}

/// Only cells on which a stroke falls get a level: every cell of a map of
/// laid strokes is the cell of one of the strokes. With what is stated of
/// the strokes themselves, this keeps the light of each light within its
/// outermost ring.
pub proof fn lemma_levels_only_where_stamped<F: Fn(Stamp, Option<Scalar>) -> Scalar>(
    lay: &F,
    stamps: Seq<Stamp>,
    n: int,
    levels: Map<Cell, Scalar>,
)
    requires
        0 <= n <= stamps.len(),
        strokes_laid(lay, stamps, n, levels),
    ensures
        forall|cell: Cell| #[trigger]
            levels.contains_key(cell) ==> exists|i: int|
                0 <= i < n && (#[trigger] stamps[i]).x == cell.0 && stamps[i].y == cell.1,
    decreases n,
{
    if n > 0 {
        let (before, level) = choose|before: Map<Cell, Scalar>, level: Scalar|
            strokes_laid(lay, stamps, n - 1, before) && #[trigger] stroke_laid(
                lay,
                stamps[n - 1],
                before,
                level,
                levels,
            );
        lemma_levels_only_where_stamped(lay, stamps, n - 1, before);
        let last = stamps[n - 1];
        assert forall|cell: Cell| #[trigger] levels.contains_key(cell) implies exists|i: int|
            0 <= i < n && (#[trigger] stamps[i]).x == cell.0 && stamps[i].y == cell.1 by {
            if cell == (last.x, last.y) {
                assert(stamps[n - 1].x == cell.0 && stamps[n - 1].y == cell.1);
            } else {
                assert(before.contains_key(cell));
                let i = choose|i: int|
                    0 <= i < n - 1 && (#[trigger] stamps[i]).x == cell.0 && stamps[i].y == cell.1;
                assert(0 <= i < n && stamps[i].x == cell.0 && stamps[i].y == cell.1);
            }
        }
    }
}

impl WorldMap {
    /// Builds the light map anew from the lights.
    ///
    /// The lights are taken in some order, each once, and their strokes are
    /// laid on an empty map: for each light the stroke on its own cell, then
    /// its rings from the innermost outward. `lay` does the arithmetic: it
    /// gives the level of a cell from the stroke that falls on it and the
    /// level that the cell has so far. Nothing but the light map changes.
    pub fn compute_lighting<F: Fn(Stamp, Option<Scalar>) -> Scalar>(&mut self, lay: &F)
        requires
            lays_all(lay),
        ensures
            exists|lights: Seq<(i32, i32, i32)>| #[trigger]
                old(self).lists_lights(lights) && lit_by(lay, lights, final(self).light_map()),
            final(self)@ == (WorldView { light_map: final(self)@.light_map, ..old(self)@ }),
    {
        let lights = self.light_sources();
        let stamps = light_stamps(lights.as_slice());
        self.clear_light_map();
        let mut i: usize = 0;
        while i < stamps.len()
            invariant
                i <= stamps@.len(),
                lays_all(lay),
                old(self).lists_lights(lights@),
                stamps@ == stamps_upto(lights@, lights@.len() as int),
                self@ == (WorldView { light_map: self@.light_map, ..old(self)@ }),
                strokes_laid(lay, stamps@, i as int, self.light_map()),
            decreases stamps@.len() - i,
        {
            let stamp = stamps[i];
            let ghost before = self.light_map();
            let level = lay(stamp, self.get_light_level(stamp.x, stamp.y));
            self.set_light_level(stamp.x, stamp.y, level);
            proof {
                assert(strokes_laid(lay, stamps@, i as int, before));
                assert(stroke_laid(lay, stamps@[i + 1 - 1], before, level, self.light_map()));
                assert(strokes_laid(lay, stamps@, i + 1, self.light_map()));
            }
            i = i + 1;
        }
    }
}

} // verus!
