//! The region assignment table: which generation policy applies to a chunk
//! coordinate that has not been generated yet.
//!
//! The table is the engine's hash map, `bevy::utils::HashMap`, keyed by the
//! coordinate. Verus does not look inside it: the methods below state what
//! each map operation does to the entries it holds.

use bevy::utils::HashMap;
use vstd::prelude::*;

verus! {

/// A generation policy for a run of chunks.
#[derive(Clone, Copy, Debug, PartialEq, Eq, Structural)]
pub enum Region {
    /// The surroundings of the player's spawn point: forest, with the
    /// gameplay band kept clear on the chunks the player can reach.
    SpawnPoint,
    /// Scattered trees, boulders and stumps.
    Forest,
    /// Bare ground.
    Meadow,
}

/// Regions assigned to chunk coordinates.
#[verifier::external_body]
pub struct RegionTable {
    regions: HashMap<i32, Region>,
}

/// The entries that `table` holds, as a map from coordinate to region.
pub uninterp spec fn region_entries(table: RegionTable) -> Map<i32, Region>;

/// A table without entries.
pub open spec fn no_regions() -> Map<i32, Region> {
    Map::empty()
}

/// The region that `entries` assigns to `x`, or `fallback` where they assign
/// none.
pub open spec fn region_at(entries: Map<i32, Region>, x: i32, fallback: Region) -> Region {
    if entries.dom().contains(x) {
        entries[x]
    } else {
        fallback
    }
}

/// `entries`, with `x` assigned to `fallback` where it had no region.
pub open spec fn with_fallback(entries: Map<i32, Region>, x: i32, fallback: Region) -> Map<
    i32,
    Region,
> {
    if entries.dom().contains(x) {
        entries
    } else {
        entries.insert(x, fallback)
    }
}

impl View for RegionTable {
    type V = Map<i32, Region>;

    open spec fn view(&self) -> Map<i32, Region> {
        region_entries(*self)
    }
}

impl RegionTable {
    /// Calls `HashMap::default`. Trusted: the new map holds no entry.
    #[verifier::external_body]
    pub(crate) fn new() -> (table: RegionTable)
        ensures
            region_entries(table) == no_regions(),
    {
        RegionTable { regions: HashMap::default() }
    }

    /// Calls `HashMap::insert`. Trusted: afterwards `x` maps to `region` and
    /// every other entry is as before.
    #[verifier::external_body]
    pub(crate) fn insert(&mut self, x: i32, region: Region)
        ensures
            region_entries(*final(self)) == region_entries(*old(self)).insert(x, region),
    {
        let _ = self.regions.insert(x, region);
    }

    /// Calls `HashMap::entry` and, on the entry, `Entry::or_insert`. Trusted:
    /// where `x` had no region it now maps to `fallback`, every other entry
    /// is as before, and the region that `x` maps to afterwards is returned.
    #[verifier::external_body]
    pub(crate) fn or_insert(&mut self, x: i32, fallback: Region) -> (region: Region)
        ensures
            region == region_at(region_entries(*old(self)), x, fallback),
            region_entries(*final(self)) == with_fallback(region_entries(*old(self)), x, fallback),
    {
        *self.regions.entry(x).or_insert(fallback)
    }

    /// Calls `HashMap::remove`. Trusted: afterwards `x` has no region and
    /// every other entry is as before.
    #[verifier::external_body]
    pub(crate) fn remove(&mut self, x: i32)
        ensures
            region_entries(*final(self)) == region_entries(*old(self)).remove(x),
    {
        let _ = self.regions.remove(&x);
    }
}

} // verus!
