//! The surroundings of the spawn point: obstacles are rolled for as in the
//! forest, except that on the chunks the player can reach the gameplay band
//! is kept clear.

use crate::commands::Commands;
use crate::constants::{MAP_MAX_Z, MAP_MIN_Z};
use crate::random::RandomStream;
use crate::resources::grounds::{in_gameplay_band, is_gameplay_lane};
use crate::world::biomes::crossy_valley::regions::forest::{
    forest_cell, forest_row, roll_cell,
};
use crate::world::biomes::{
    lemma_with_cells_keys, lemma_with_obstacles_push, obstacles_added_on, spawn_obstacle, terrain,
    with_obstacles, ObstaclePlacement, CHUNK_WIDTH, MAX_CHUNK_OBSTACLES,
};
use crate::world::{centre_lane_clear, obstacle_lanes_from, on_live_chunk, WorldMap};
use vstd::prelude::*;

verus! {

/// Last chunk coordinate whose gameplay band may hold obstacles. On the
/// chunks past it the gameplay band is kept clear.
pub const LAST_ROLLED_X: i32 = -4;

/// Cell `(x, z)` gets no obstacle and no roll: it lies on the centre lane, or
/// on the gameplay band of a chunk past [`LAST_ROLLED_X`].
pub open spec fn kept_clear(x: i32, z: int) -> bool {
    z == 0 || (x > LAST_ROLLED_X && in_gameplay_band(z))
}

/// Whether cell `(x, z)` gets no obstacle and no roll.
pub fn is_kept_clear(x: i32, z: i32) -> (clear: bool)
    ensures
        clear == kept_clear(x, z as int),
{
    z == 0 || (x > LAST_ROLLED_X && is_gameplay_lane(z))
}

/// What the region places on the cells of chunk `x` from lateral coordinate
/// `z` to the end of the band, in rising order, drawn from a stream at `rng`:
/// every cell that is not kept clear is rolled for as a cell of the forest.
/// With it, the stream's state afterwards.
pub open spec fn spawn_point_row(rng: (u64, u64), x: i32, z: int) -> (
    Seq<ObstaclePlacement>,
    (u64, u64),
)
    decreases MAP_MAX_Z - z,
{
    if z >= MAP_MAX_Z || z < MAP_MIN_Z {
        (Seq::empty(), rng)
    } else if kept_clear(x, z) {
        spawn_point_row(rng, x, z + 1)
    } else {
        let cell = forest_cell(rng);
        let rest = spawn_point_row(cell.1, x, z + 1);
        match cell.0 {
            Some(obstacle) => (
                seq![
                    ObstaclePlacement { z: z as i32, model: obstacle.0, quarter_turns: obstacle.1 },
                ] + rest.0,
                rest.1,
            ),
            None => rest,
        }
    }
}

/// The spawn point's region places at most one obstacle per cell, in rising
/// order of the lateral coordinate, inside the band and never on a cell that
/// is kept clear.
pub proof fn lemma_spawn_point_row_lanes(rng: (u64, u64), x: i32, z: int)
    requires
        MAP_MIN_Z <= z <= MAP_MAX_Z,
    ensures
        spawn_point_row(rng, x, z).0.len() <= obstacle_lanes_from(z),
        forall|i: int|
            0 <= i < spawn_point_row(rng, x, z).0.len() ==> z + i <= (#[trigger] spawn_point_row(
                rng,
                x,
                z,
            ).0[i]).z < MAP_MAX_Z && !kept_clear(x, spawn_point_row(rng, x, z).0[i].z as int),
    decreases MAP_MAX_Z - z,
{
    if z < MAP_MAX_Z {
        if kept_clear(x, z) {
            lemma_spawn_point_row_lanes(rng, x, z + 1);
        } else {
            lemma_spawn_point_row_lanes(forest_cell(rng).1, x, z + 1);
        }
    }
}

/// Behind the clearing nothing but the centre lane is kept clear, and the
/// region places what the forest places.
pub proof fn lemma_spawn_point_row_is_forest_row(rng: (u64, u64), x: i32, z: int)
    requires
        x <= LAST_ROLLED_X,
    ensures
        spawn_point_row(rng, x, z) == forest_row(rng, z),
    decreases MAP_MAX_Z - z,
{
    if MAP_MIN_Z <= z < MAP_MAX_Z {
        if z == 0 {
            lemma_spawn_point_row_is_forest_row(rng, x, z + 1);
        } else {
            lemma_spawn_point_row_is_forest_row(forest_cell(rng).1, x, z + 1);
        }
    }
}

/// Generates the obstacles of chunk `x` around the spawn point.
pub fn spawn_obstacles(x: i32, commands: &mut Commands, map: &mut WorldMap)
    requires
        on_live_chunk(old(map).chunks(), x as int),
        old(commands)@.spawned + CHUNK_WIDTH <= u64::MAX,
    ensures
        terrain(final(map), final(commands)) == with_obstacles(
            terrain(old(map), old(commands)),
            x,
            spawn_point_row(old(map).rng(), x, MAP_MIN_Z as int).0,
            spawn_point_row(old(map).rng(), x, MAP_MIN_Z as int).1,
        ),
        final(map).chunks() == old(map).chunks(),
        obstacles_added_on(old(map).obstacles(), final(map).obstacles(), x),
        centre_lane_clear(final(map).obstacles()),
        final(commands)@.obstacles.len() <= old(commands)@.obstacles.len()
            + MAX_CHUNK_OBSTACLES,
        final(commands)@.spawned <= old(commands)@.spawned + MAX_CHUNK_OBSTACLES,
{
    let ghost before = terrain(map, commands);
    let ghost row = spawn_point_row(before.rng, x, MAP_MIN_Z as int);
    let ghost mut placed: Seq<ObstaclePlacement> = Seq::empty();
    let mut stream: RandomStream = map.random_generator();
    let mut z: i32 = MAP_MIN_Z;
    proof {
        assert(placed + row.0 =~= row.0);
        assert(terrain(map, commands) =~= with_obstacles(before, x, placed, before.rng));
    }
    while z < MAP_MAX_Z
        invariant
            MAP_MIN_Z <= z <= MAP_MAX_Z,
            before.commands.spawned + CHUNK_WIDTH <= u64::MAX,
            placed.len() <= z - MAP_MIN_Z,
            on_live_chunk(before.chunks, x as int),
            placed + spawn_point_row(stream@, x, z as int).0 == row.0,
            spawn_point_row(stream@, x, z as int).1 == row.1,
            terrain(map, commands) == with_obstacles(before, x, placed, before.rng),
        decreases MAP_MAX_Z - z,
    {
        if !is_kept_clear(x, z) {
            let ghost rest = spawn_point_row(stream@, x, z as int).0;
            let cell = roll_cell(&mut stream);
            if let Some(obstacle) = cell {
                let ghost placement = ObstaclePlacement {
                    z,
                    model: obstacle.0,
                    quarter_turns: obstacle.1,
                };
                spawn_obstacle(commands, map, obstacle.0, x, z, obstacle.1);
                proof {
                    lemma_with_obstacles_push(before, x, placed, placement, before.rng);
                    assert(placed.push(placement) + spawn_point_row(stream@, x, z + 1).0
                        =~= placed + rest);
                    placed = placed.push(placement);
                }
            }
        }
        z = z + 1;
    }
    proof {
        assert(placed + Seq::<ObstaclePlacement>::empty() =~= placed);
    }
    map.set_random_generator(stream);
    proof {
        lemma_spawn_point_row_lanes(before.rng, x, MAP_MIN_Z as int);
        lemma_with_cells_keys(before.obstacles, x, row.0, before.commands.spawned);
        use_type_invariant(&*map);
    }
}

} // verus!
