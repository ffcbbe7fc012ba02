//! The valley: a clearing in the forest around the spawn point, then forest.

use crate::commands::Commands;
use crate::constants::{MAP_MIN_X, PLAYER_SPAWN_X};
use crate::events::{Events, RequestNewChunkSpawning};
use crate::world::biomes::region_table::{Region, RegionTable};
use crate::world::biomes::{
    spawn_new_chunks, terrain, with_chunks, without_coordinates, CHUNK_WIDTH,
};
use crate::world::{centre_lane_clear, chunks_appended, next_chunk_x, WorldMap};
use vstd::prelude::*;

pub mod regions;

verus! {

/// One past the last chunk coordinate that belongs to the spawn point's
/// region: the region reaches just beyond the spawn point.
pub const SPAWN_REGION_END: i32 = PLAYER_SPAWN_X + 2;

/// The regions that the valley assigns when it is entered: the spawn point's
/// region from the world's first coordinate to just beyond the spawn point.
pub open spec fn spawn_regions() -> Map<i32, Region> {
    Map::new(|x: i32| MAP_MIN_X <= x < SPAWN_REGION_END, |x: i32| Region::SpawnPoint)
}

/// What the valley keeps between its systems.
pub struct BiomeData {
    regions: RegionTable,
}

impl BiomeData {
    /// Regions assigned to coordinates that are still to be generated.
    pub closed spec fn regions(&self) -> Map<i32, Region> {
        self.regions@
    }
}

/// The systems of the valley.
pub struct CrossyValleyBiome;

impl CrossyValleyBiome {
    /// Sets the valley up: assigns the spawn point's region to the
    /// coordinates around the spawn point.
    pub fn enter_biome() -> (biome_data: BiomeData)
        ensures
            biome_data.regions() == spawn_regions(),
    {
        let mut regions = RegionTable::new();
        let mut x: i32 = MAP_MIN_X;
        proof {
            assert(regions@ =~= spawn_regions().restrict(Set::new(|key: i32| key < MAP_MIN_X)));
        }
        while x < SPAWN_REGION_END
            invariant
                MAP_MIN_X <= x <= SPAWN_REGION_END,
                regions@ == spawn_regions().restrict(Set::new(|key: i32| key < x)),
            decreases SPAWN_REGION_END - x,
        {
            let ghost assigned = regions@;
            regions.insert(x, Region::SpawnPoint);
            proof {
                assert(assigned.insert(x, Region::SpawnPoint) =~= spawn_regions().restrict(
                    Set::new(|key: i32| key < x + 1),
                ));
            }
            x = x + 1;
        }
        proof {
            assert(regions@ =~= spawn_regions());
        }
        BiomeData { regions }
    }

    /// Serves every waiting request for a new chunk. A coordinate without an
    /// assigned region is forest.
    pub fn spawn_new_chunk(
        commands: &mut Commands,
        new_chunk_spawning_requests: &mut Events<RequestNewChunkSpawning>,
        biome_data: &mut BiomeData,
        map: &mut WorldMap,
    )
        requires
            next_chunk_x(old(map).chunks()) + old(new_chunk_spawning_requests)@.len() <= i32::MAX
                + 1,
            old(commands)@.spawned + 2 * CHUNK_WIDTH * old(new_chunk_spawning_requests)@.len()
                <= u64::MAX,
        ensures
            final(new_chunk_spawning_requests)@.len() == 0,
            terrain(final(map), final(commands)) == with_chunks(
                terrain(old(map), old(commands)),
                old(biome_data).regions(),
                Region::Forest,
                next_chunk_x(old(map).chunks()),
                old(new_chunk_spawning_requests)@.len(),
            ),
            final(biome_data).regions() == without_coordinates(
                old(biome_data).regions(),
                next_chunk_x(old(map).chunks()),
                next_chunk_x(old(map).chunks()) + old(new_chunk_spawning_requests)@.len(),
            ),
            chunks_appended(
                old(map).chunks(),
                final(map).chunks(),
                next_chunk_x(old(map).chunks()),
                old(new_chunk_spawning_requests)@.len(),
            ),
            centre_lane_clear(final(map).obstacles()),
            final(commands)@.spawned <= old(commands)@.spawned + 2 * CHUNK_WIDTH * old(
                new_chunk_spawning_requests,
            )@.len(),
            old(new_chunk_spawning_requests)@.len() == 0 ==> terrain(final(map), final(commands))
                == terrain(old(map), old(commands)) && final(biome_data).regions() == old(
                biome_data,
            ).regions(),
    {
        spawn_new_chunks(
            commands,
            new_chunk_spawning_requests,
            &mut biome_data.regions,
            Region::Forest,
            map,
        );
    }
}

} // verus!
