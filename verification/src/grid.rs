//! The sparse grid: a hash map from integer cells to what stands in them.
//!
//! The map is `rustc_hash::FxHashMap`, the standard hash map with the `fx`
//! hasher. The hasher is a plain function of the bytes written to it, so the
//! map behaves as a finite map from cells to values; the functions in this
//! file state that, and nothing here proves it.

use vstd::prelude::*;
use rustc_hash::FxHashMap;
use crate::light::Light;

verus! {

/// A cell of the grid.
pub type Cell = (i32, i32);

/// `rustc_hash::FxHasher`, the hasher state. Nothing is said of it.
#[verifier::external_type_specification]
#[verifier::external_body]
pub struct ExFxHasher(rustc_hash::FxHasher);

/// `core::hash::BuildHasherDefault`, which makes a hasher by `Default`.
/// Nothing is said of it.
#[verifier::external_type_specification]
#[verifier::external_body]
#[verifier::reject_recursive_types(H)]
pub struct ExBuildHasherDefault<H>(core::hash::BuildHasherDefault<H>);

/// `HashMap::insert` on an `FxHashMap`: afterwards the cell `(x, y)` holds
/// `value`, whatever it held before, and every other cell is as it was.
#[verifier::external_body]
pub(crate) fn grid_insert<V>(grid: &mut FxHashMap<Cell, V>, x: i32, y: i32, value: V)
    ensures
        final(grid)@ == old(grid)@.insert((x, y), value),
{
    grid.insert((x, y), value);
}

/// `HashMap::get` on an `FxHashMap`: the value that the cell `(x, y)` holds,
/// or `None` when it holds none.
#[verifier::external_body]
pub(crate) fn grid_get<'a, V>(grid: &'a FxHashMap<Cell, V>, x: i32, y: i32) -> (found: Option<&'a V>)
    ensures
        found == (if grid@.contains_key((x, y)) {
            Some(&grid@[(x, y)])
        } else {
            None
        }),
{
    grid.get(&(x, y))
}

/// `HashMap::iter` on an `FxHashMap` of lights, each item handed out as
/// `(x, y, intensity)`: every light of the map is listed, with its cell and
/// its intensity, and none twice. Nothing is said of the order.
#[verifier::external_body]
pub(crate) fn grid_lights(grid: &FxHashMap<Cell, Light>) -> (lights: Vec<(i32, i32, i32)>)
    ensures
        forall|i: int|
            0 <= i < lights@.len() ==> grid@.contains_key((#[trigger] lights@[i].0, lights@[i].1))
                && grid@[(lights@[i].0, lights@[i].1)].intensity == lights@[i].2,
        forall|cell: Cell| #[trigger]
            grid@.contains_key(cell) ==> exists|i: int|
                0 <= i < lights@.len() && (#[trigger] lights@[i].0, lights@[i].1) == cell,
        forall|i: int, j: int|
            0 <= i < j < lights@.len() ==> (#[trigger] lights@[i].0, lights@[i].1) != (
                #[trigger] lights@[j].0,
                lights@[j].1,
            ),
{
    grid.iter().map(|(cell, light)| (cell.0, cell.1, light.intensity)).collect()
}

} // verus!
