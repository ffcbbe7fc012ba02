//! The bare minimum of a biome: meadow everywhere.

use crate::commands::Commands;
use crate::events::{Events, RequestNewChunkSpawning};
use crate::world::biomes::region_table::{no_regions, Region, RegionTable};
use crate::world::biomes::{
    spawn_new_chunks, terrain, with_chunks, without_coordinates, CHUNK_WIDTH,
};
use crate::world::{centre_lane_clear, chunks_appended, next_chunk_x, WorldMap};
use vstd::prelude::*;

verus! {

/// What the biome keeps between its systems.
pub struct BiomeData {
    regions: RegionTable,
}

impl BiomeData {
    /// Regions assigned to coordinates that are still to be generated.
    pub closed spec fn regions(&self) -> Map<i32, Region> {
        self.regions@
    }
}

/// The systems of the biome.
pub struct DefaultBiome;

impl DefaultBiome {
    /// Sets the biome up. No coordinate gets a region of its own.
    pub fn enter_biome() -> (biome_data: BiomeData)
        ensures
            biome_data.regions() == no_regions(),
    {
        BiomeData { regions: RegionTable::new() }
    }

    /// Serves every waiting request for a new chunk. A coordinate without an
    /// assigned region is meadow.
    pub fn spawn_new_chunk(
        commands: &mut Commands,
        new_chunk_spawning_requests: &mut Events<RequestNewChunkSpawning>,
        biome_data: &mut BiomeData,
        map: &mut WorldMap,
    )
        requires
            next_chunk_x(old(map).chunks()) + old(new_chunk_spawning_requests)@.len() <= i32::MAX
                + 1,
            old(commands)@.spawned + 2 * CHUNK_WIDTH * old(new_chunk_spawning_requests)@.len()
                <= u64::MAX,
        ensures
            final(new_chunk_spawning_requests)@.len() == 0,
            terrain(final(map), final(commands)) == with_chunks(
                terrain(old(map), old(commands)),
                old(biome_data).regions(),
                Region::Meadow,
                next_chunk_x(old(map).chunks()),
                old(new_chunk_spawning_requests)@.len(),
            ),
            final(biome_data).regions() == without_coordinates(
                old(biome_data).regions(),
                next_chunk_x(old(map).chunks()),
                next_chunk_x(old(map).chunks()) + old(new_chunk_spawning_requests)@.len(),
            ),
            chunks_appended(
                old(map).chunks(),
                final(map).chunks(),
                next_chunk_x(old(map).chunks()),
                old(new_chunk_spawning_requests)@.len(),
            ),
            centre_lane_clear(final(map).obstacles()),
            final(commands)@.spawned <= old(commands)@.spawned + 2 * CHUNK_WIDTH * old(
                new_chunk_spawning_requests,
            )@.len(),
            old(new_chunk_spawning_requests)@.len() == 0 ==> terrain(final(map), final(commands))
                == terrain(old(map), old(commands)) && final(biome_data).regions() == old(
                biome_data,
            ).regions(),
    {
        spawn_new_chunks(
            commands,
            new_chunk_spawning_requests,
            &mut biome_data.regions,
            Region::Meadow,
            map,
        );
    }
}

} // verus!
