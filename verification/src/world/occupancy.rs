//! The obstacle occupancy index: which cells of the lane grid hold an
//! obstacle, and the entity that stands there.
//!
//! The index is the engine's hash map, `bevy::utils::HashMap`, keyed by the
//! cell as a `bevy::math::IVec2`. Verus does not look inside it: the methods
//! below state what each map operation does to the cells it holds.

use bevy::math::IVec2;
use bevy::utils::HashMap;
use vstd::prelude::*;

verus! {

/// Cells that hold an obstacle, each with the obstacle's entity.
#[verifier::external_body]
pub struct ObstacleIndex {
    cells: HashMap<IVec2, u64>,
}

/// The cells that `index` holds, as a map from `(x, z)` to the entity.
pub uninterp spec fn obstacle_cells(index: ObstacleIndex) -> Map<(i32, i32), u64>;

/// An index without cells.
pub open spec fn no_cells() -> Map<(i32, i32), u64> {
    Map::empty()
}

/// The entity that `cells` holds at `(x, z)`, if it holds one there.
pub open spec fn cell_entry(cells: Map<(i32, i32), u64>, x: i32, z: i32) -> Option<u64> {
    if cells.dom().contains((x, z)) {
        Some(cells[(x, z)])
    } else {
        None
    }
}

impl View for ObstacleIndex {
    type V = Map<(i32, i32), u64>;

    open spec fn view(&self) -> Map<(i32, i32), u64> {
        obstacle_cells(*self)
    }
}

impl ObstacleIndex {
    /// Calls `HashMap::default`. Trusted: the new map holds no cell.
    #[verifier::external_body]
    pub(crate) fn new() -> (index: ObstacleIndex)
        ensures
            obstacle_cells(index) == no_cells(),
    {
        ObstacleIndex { cells: HashMap::default() }
    }

    /// Calls `HashMap::get` with the cell as key. Trusted: it returns the
    /// entity stored for the cell, and nothing where the cell is not held.
    #[verifier::external_body]
    pub(crate) fn get(&self, x: i32, z: i32) -> (entity: Option<u64>)
        ensures
            entity == cell_entry(obstacle_cells(*self), x, z),
    {
        self.cells.get(&IVec2::new(x, z)).copied()
    }

    /// Calls `HashMap::insert` with the cell as key. Trusted: afterwards the
    /// cell maps to `entity` and every other cell is as before; the entity
    /// that the cell held before, if any, is returned.
    #[verifier::external_body]
    pub(crate) fn insert(&mut self, x: i32, z: i32, entity: u64) -> (previous: Option<u64>)
        ensures
            obstacle_cells(*final(self)) == obstacle_cells(*old(self)).insert((x, z), entity),
            previous == cell_entry(obstacle_cells(*old(self)), x, z),
    {
        self.cells.insert(IVec2::new(x, z), entity)
    }

    /// Calls `HashMap::remove` with the cell as key. Trusted: afterwards the
    /// cell is not held and every other cell is as before; the entity that
    /// the cell held, if any, is returned.
    #[verifier::external_body]
    pub(crate) fn remove(&mut self, x: i32, z: i32) -> (removed: Option<u64>)
        ensures
            obstacle_cells(*final(self)) == obstacle_cells(*old(self)).remove((x, z)),
            removed == cell_entry(obstacle_cells(*old(self)), x, z),
    {
        self.cells.remove(&IVec2::new(x, z))
    }

    /// Calls `HashMap::clear`. Trusted: afterwards the map holds no cell.
    #[verifier::external_body]
    pub(crate) fn clear(&mut self)
        ensures
            obstacle_cells(*final(self)) == no_cells(),
    {
        self.cells.clear()
    }
}

} // verus!
