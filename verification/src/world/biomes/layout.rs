//! The layout that generation produces, apart from the entities that carry
//! it: which obstacle stands on which cell, and how it is turned.
//!
//! The layout of a run of chunks is a function of the random stream, the
//! region table and the run's coordinates alone. Whatever else the world
//! holds, equal streams give equal terrain.

use crate::commands::Obstacle;
use crate::constants::{INITIAL_CHUNKS, MAP_MAX_Z, MAP_MIN_X, MAP_MIN_Z, MAP_SEED};
use crate::random::seeded_state;
use crate::resources::obstacles::ObstacleModel;
use crate::world::biomes::crossy_valley::spawn_regions;
use crate::world::biomes::region_table::{region_at, Region};
use crate::world::biomes::{
    lemma_region_row_lanes, lemma_with_cells_keys, obstacle_row, region_row, with_chunks,
    with_ground, with_obstacles, without_front, without_fronts, ObstaclePlacement, Terrain,
};
use crate::world::{contiguous, next_chunk_x};
use vstd::prelude::*;

verus! {

/// An obstacle as the layout knows it: its cell, its model and its rotation.
pub struct ObstacleCell {
    pub x: i32,
    pub z: i32,
    pub model: ObstacleModel,
    pub quarter_turns: u32,
}

/// The layout of `obstacles`: each obstacle without its entity.
pub open spec fn layout(obstacles: Seq<Obstacle>) -> Seq<ObstacleCell> {
    Seq::new(
        obstacles.len(),
        |i: int|
            ObstacleCell {
                x: obstacles[i].x,
                z: obstacles[i].z,
                model: obstacles[i].model,
                quarter_turns: obstacles[i].quarter_turns,
            },
    )
}

/// The layout of the obstacles that `row` places on chunk `x`.
pub open spec fn row_layout(x: i32, row: Seq<ObstaclePlacement>) -> Seq<ObstacleCell> {
    Seq::new(
        row.len(),
        |i: int|
            ObstacleCell {
                x,
                z: row[i].z,
                model: row[i].model,
                quarter_turns: row[i].quarter_turns,
            },
    )
}

/// The layout of `count` chunks generated from coordinate `x` onwards by a
/// stream at `rng`, and the stream's state afterwards.
pub open spec fn generated_layout(
    rng: (u64, u64),
    regions: Map<i32, Region>,
    fallback: Region,
    x: int,
    count: nat,
) -> (Seq<ObstacleCell>, (u64, u64))
    decreases count,
{
    if count == 0 {
        (Seq::empty(), rng)
    } else {
        let before = generated_layout(rng, regions, fallback, x, (count - 1) as nat);
        let last = (x + count - 1) as i32;
        let row = region_row(region_at(regions, last, fallback), before.1, last);
        (before.0 + row_layout(last, row.0), row.1)
    }
}

/// The layout of the obstacles that generating `count` chunks from
/// coordinate `x` onwards adds to `terrain`.
pub open spec fn added_layout(
    terrain: Terrain,
    regions: Map<i32, Region>,
    fallback: Region,
    x: int,
    count: nat,
) -> Seq<ObstacleCell> {
    layout(with_chunks(terrain, regions, fallback, x, count).commands.obstacles).skip(
        terrain.commands.obstacles.len() as int,
    )
}

/// Determinism of one chunk's obstacles: generated by the same region on the
/// same chunk from equal random streams, over maps that hold obstacles on
/// the same cells, two runs queue the same obstacles on the same lanes with
/// the same rotations, occupy the same cells, and leave equal streams behind.
pub proof fn lemma_obstacles_are_deterministic(
    first: Terrain,
    second: Terrain,
    region: Region,
    x: i32,
)
    requires
        first.rng == second.rng,
        first.obstacles.dom() == second.obstacles.dom(),
    ensures
        ({
            let row = region_row(region, first.rng, x);
            let one = with_obstacles(first, x, row.0, row.1);
            let other = with_obstacles(second, x, row.0, row.1);
            &&& one.rng == other.rng
            &&& layout(one.commands.obstacles).skip(first.commands.obstacles.len() as int)
                == row_layout(x, row.0)
            &&& layout(other.commands.obstacles).skip(second.commands.obstacles.len() as int)
                == row_layout(x, row.0)
            &&& one.obstacles.dom() == other.obstacles.dom()
        }),
{
    let row = region_row(region, first.rng, x);
    let one = with_obstacles(first, x, row.0, row.1);
    let other = with_obstacles(second, x, row.0, row.1);
    lemma_region_row_lanes(region, first.rng, x);
    lemma_with_cells_keys(first.obstacles, x, row.0, first.commands.spawned);
    lemma_with_cells_keys(second.obstacles, x, row.0, second.commands.spawned);
    assert(one.obstacles.dom() =~= other.obstacles.dom());
    assert(layout(one.commands.obstacles).skip(first.commands.obstacles.len() as int)
        =~= row_layout(x, row.0));
    assert(layout(other.commands.obstacles).skip(second.commands.obstacles.len() as int)
        =~= row_layout(x, row.0));
}

/// Generation leaves the random stream, and adds to the queued obstacles,
/// exactly what [`generated_layout`] says: neither depends on anything in
/// the terrain but its random stream.
pub proof fn lemma_with_chunks_layout(
    terrain: Terrain,
    regions: Map<i32, Region>,
    fallback: Region,
    x: int,
    count: nat,
)
    ensures
        with_chunks(terrain, regions, fallback, x, count).rng == generated_layout(
            terrain.rng,
            regions,
            fallback,
            x,
            count,
        ).1,
        layout(with_chunks(terrain, regions, fallback, x, count).commands.obstacles) == layout(
            terrain.commands.obstacles,
        ) + generated_layout(terrain.rng, regions, fallback, x, count).0,
        added_layout(terrain, regions, fallback, x, count) == generated_layout(
            terrain.rng,
            regions,
            fallback,
            x,
            count,
        ).0,
    decreases count,
{
    let generated = generated_layout(terrain.rng, regions, fallback, x, count);
    let after = with_chunks(terrain, regions, fallback, x, count);
    if count == 0 {
        assert(layout(terrain.commands.obstacles) + generated.0 =~= layout(
            terrain.commands.obstacles,
        ));
    } else {
        let fewer = (count - 1) as nat;
        lemma_with_chunks_layout(terrain, regions, fallback, x, fewer);
        let before = with_chunks(terrain, regions, fallback, x, fewer);
        let last = (x + count - 1) as i32;
        let row = region_row(region_at(regions, last, fallback), before.rng, last);
        assert(after.commands.obstacles == before.commands.obstacles + obstacle_row(
            last,
            row.0,
            with_ground(before, last).commands.spawned,
        ));
        assert(layout(after.commands.obstacles) =~= layout(before.commands.obstacles)
            + row_layout(last, row.0));
        assert(layout(after.commands.obstacles) =~= layout(terrain.commands.obstacles)
            + generated.0);
    }
    assert(added_layout(terrain, regions, fallback, x, count) =~= generated.0);
}

/// Determinism: two runs of generation from equal random streams, with the
/// same region table and over the same coordinates, produce the same
/// obstacles on the same cells with the same rotations, and leave equal
/// streams behind - whatever else the two worlds hold.
pub proof fn lemma_generation_is_deterministic(
    first: Terrain,
    second: Terrain,
    regions: Map<i32, Region>,
    fallback: Region,
    x: int,
    count: nat,
)
    requires
        first.rng == second.rng,
    ensures
        added_layout(first, regions, fallback, x, count) == added_layout(
            second,
            regions,
            fallback,
            x,
            count,
        ),
        with_chunks(first, regions, fallback, x, count).rng == with_chunks(
            second,
            regions,
            fallback,
            x,
            count,
        ).rng,
{
    lemma_with_chunks_layout(first, regions, fallback, x, count);
    lemma_with_chunks_layout(second, regions, fallback, x, count);
}

/// Reset round trip: a world that has been taken down and whose stream has
/// been restarted from the fixed seed generates, over its initial run of
/// chunks, the layout that the first initialisation generated.
pub proof fn lemma_reset_reproduces_layout(fresh: Terrain, restarted: Terrain)
    requires
        fresh.rng == seeded_state(MAP_SEED),
        restarted.rng == seeded_state(MAP_SEED),
        fresh.chunks.len() == 0,
        restarted.chunks.len() == 0,
    ensures
        added_layout(
            restarted,
            spawn_regions(),
            Region::Forest,
            next_chunk_x(restarted.chunks),
            INITIAL_CHUNKS as nat,
        ) == added_layout(
            fresh,
            spawn_regions(),
            Region::Forest,
            next_chunk_x(fresh.chunks),
            INITIAL_CHUNKS as nat,
        ),
{
    lemma_generation_is_deterministic(
        fresh,
        restarted,
        spawn_regions(),
        Region::Forest,
        MAP_MIN_X as int,
        INITIAL_CHUNKS as nat,
    );
}

/// Centre lane: generation places every obstacle on one of the chunks it
/// generates, inside the lateral band, and none on the centre lane.
pub proof fn lemma_generated_layout_lanes(
    rng: (u64, u64),
    regions: Map<i32, Region>,
    fallback: Region,
    x: int,
    count: nat,
)
    requires
        i32::MIN <= x,
        x + count <= i32::MAX + 1,
    ensures
        forall|i: int|
            0 <= i < generated_layout(rng, regions, fallback, x, count).0.len() ==> {
                let cell = #[trigger] generated_layout(rng, regions, fallback, x, count).0[i];
                &&& x <= cell.x < x + count
                &&& MAP_MIN_Z <= cell.z < MAP_MAX_Z
                &&& cell.z != 0
            },
    decreases count,
{
    if count > 0 {
        let fewer = (count - 1) as nat;
        lemma_generated_layout_lanes(rng, regions, fallback, x, fewer);
        let before = generated_layout(rng, regions, fallback, x, fewer);
        let last = (x + count - 1) as i32;
        let region = region_at(regions, last, fallback);
        lemma_region_row_lanes(region, before.1, last);
        let row = region_row(region, before.1, last);
        let generated = generated_layout(rng, regions, fallback, x, count).0;
        assert forall|i: int| 0 <= i < generated.len() implies {
            let cell = #[trigger] generated[i];
            &&& x <= cell.x < x + count
            &&& MAP_MIN_Z <= cell.z < MAP_MAX_Z
            &&& cell.z != 0
        } by {
            if i < before.0.len() {
                assert(generated[i] == before.0[i]);
            } else {
                let j = i - before.0.len();
                assert(generated[i] == row_layout(last, row.0)[j]);
                assert(row_layout(last, row.0)[j].z == row.0[j].z);
            }
        }
    }
}

/// Contiguity: generating chunks behind a contiguous queue, from the
/// coordinate that follows its newest chunk, leaves a contiguous queue whose
/// new chunks have the coordinates of the run.
pub proof fn lemma_with_chunks_contiguous(
    terrain: Terrain,
    regions: Map<i32, Region>,
    fallback: Region,
    x: int,
    count: nat,
)
    requires
        contiguous(terrain.chunks),
        x == next_chunk_x(terrain.chunks),
        x + count <= i32::MAX + 1,
    ensures
        contiguous(with_chunks(terrain, regions, fallback, x, count).chunks),
        with_chunks(terrain, regions, fallback, x, count).chunks.len() == terrain.chunks.len()
            + count,
        with_chunks(terrain, regions, fallback, x, count).chunks.take(
            terrain.chunks.len() as int,
        ) == terrain.chunks,
        forall|i: int|
            0 <= i < count ==> (#[trigger] with_chunks(
                terrain,
                regions,
                fallback,
                x,
                count,
            ).chunks[terrain.chunks.len() + i]).position_x == x + i,
    decreases count,
{
    let after = with_chunks(terrain, regions, fallback, x, count).chunks;
    if count == 0 {
        assert(after.take(terrain.chunks.len() as int) =~= terrain.chunks);
    } else {
        let fewer = (count - 1) as nat;
        lemma_with_chunks_contiguous(terrain, regions, fallback, x, fewer);
        let before = with_chunks(terrain, regions, fallback, x, fewer).chunks;
        let last = (x + count - 1) as i32;
        assert(after.len() == before.len() + 1);
        assert(after.last().position_x == last);
        assert forall|i: int| 0 <= i < after.len() implies (#[trigger] after[i]).position_x
            == after[0].position_x + i by {
            if i < before.len() {
                assert(after[i] == before[i]);
                assert(after[0] == before[0]);
            } else if before.len() > 0 {
                assert(after[0] == before[0]);
                if fewer > 0 {
                    assert(before[terrain.chunks.len() + fewer - 1].position_x == x + fewer - 1);
                } else {
                    assert(before.take(terrain.chunks.len() as int) == terrain.chunks);
                    assert(before =~= terrain.chunks);
                }
            }
        }
        assert(after.take(terrain.chunks.len() as int) =~= before.take(
            terrain.chunks.len() as int,
        ));
        assert forall|i: int| 0 <= i < count implies (#[trigger] after[terrain.chunks.len()
            + i]).position_x == x + i by {
            if i < fewer {
                assert(after[terrain.chunks.len() + i] == before[terrain.chunks.len() + i]);
            }
        }
    }
}

/// Contiguity: despawning the oldest chunk of a contiguous queue, any number
/// of times over, leaves a contiguous queue.
pub proof fn lemma_without_fronts_contiguous(terrain: Terrain, count: nat)
    requires
        contiguous(terrain.chunks),
    ensures
        contiguous(without_fronts(terrain, count).chunks),
    decreases count,
{
    if count > 0 {
        lemma_without_fronts_contiguous(terrain, (count - 1) as nat);
        let before = without_fronts(terrain, (count - 1) as nat).chunks;
        let after = without_front(without_fronts(terrain, (count - 1) as nat)).chunks;
        if before.len() > 0 {
            assert forall|i: int| 0 <= i < after.len() implies (#[trigger] after[i]).position_x
                == after[0].position_x + i by {
                assert(after[i] == before[i + 1]);
                assert(after[0] == before[1]);
            }
        }
    }
}

} // verus!
