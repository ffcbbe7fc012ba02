//! The forest: on every cell off the centre lane one roll decides whether a
//! tree, a boulder, a stump or nothing stands there.

use crate::commands::Commands;
use crate::constants::{MAP_MAX_Z, MAP_MIN_Z};
use crate::random::{rand32_range, RandomStream};
use crate::resources::obstacles::{ObstacleModel, TreeObstacles};
use crate::world::biomes::{
    lemma_with_cells_keys, lemma_with_obstacles_push, obstacles_added_on, spawn_obstacle, terrain,
    with_obstacles, ObstaclePlacement, CHUNK_WIDTH, MAX_CHUNK_OBSTACLES,
};
use crate::world::{centre_lane_clear, obstacle_lanes_from, on_live_chunk, WorldMap};
use vstd::prelude::*;

verus! {

/// Highest roll that places a tree.
pub const TREE_ROLL: u32 = 15;

/// Highest roll that places a boulder, where it places no tree.
pub const BOULDER_ROLL: u32 = 20;

/// Highest roll that places a stump, where it places neither tree nor boulder.
pub const STUMP_ROLL: u32 = 21;

/// End of the range that a cell's roll is drawn from.
pub const ROLL_END: u32 = 101;

/// What a cell's roll decides to place.
#[derive(Clone, Copy, Debug, PartialEq, Eq, Structural)]
pub enum ObstacleClass {
    Tree,
    Boulder,
    Stump,
}

/// The class that `roll` places: the thresholds are tried in rising order and
/// the first one that the roll does not exceed decides.
pub open spec fn spec_classify(roll: u32) -> Option<ObstacleClass> {
    if roll <= TREE_ROLL {
        Some(ObstacleClass::Tree)
    } else if roll <= BOULDER_ROLL {
        Some(ObstacleClass::Boulder)
    } else if roll <= STUMP_ROLL {
        Some(ObstacleClass::Stump)
    } else {
        None
    }
}

/// The class that `roll` places, if it places anything.
#[verifier::when_used_as_spec(spec_classify)]
pub fn classify(roll: u32) -> (class: Option<ObstacleClass>)
    ensures
        class == spec_classify(roll),
{
    if roll <= TREE_ROLL {
        Some(ObstacleClass::Tree)
    } else if roll <= BOULDER_ROLL {
        Some(ObstacleClass::Boulder)
    } else if roll <= STUMP_ROLL {
        Some(ObstacleClass::Stump)
    } else {
        None
    }
}

/// Quarter turns of a tree whose rotation draw is `half_turns`.
pub open spec fn spec_tree_turns(half_turns: u32) -> u32 {
    (2 * half_turns) as u32
}

/// Quarter turns of a tree whose rotation draw is `half_turns`. Trees turn
/// by whole half turns.
#[verifier::when_used_as_spec(spec_tree_turns)]
pub fn tree_turns(half_turns: u32) -> (quarter_turns: u32)
    requires
        2 * half_turns <= u32::MAX,
    ensures
        quarter_turns == spec_tree_turns(half_turns),
{
    2 * half_turns
}

/// A tree drawn from a stream at `rng`: first its model, then its rotation
/// from the half turns 1 and 2. With it, the stream's state afterwards.
pub open spec fn drawn_tree(rng: (u64, u64)) -> ((ObstacleModel, u32), (u64, u64)) {
    let tree = TreeObstacles::random_tree(rng);
    let turns = rand32_range(tree.1, 1, 3);
    ((tree.0, spec_tree_turns(turns.0)), turns.1)
}

/// Draws a tree and its rotation.
pub fn draw_tree(stream: &mut RandomStream) -> (tree: (ObstacleModel, u32))
    ensures
        (tree, final(stream)@) == drawn_tree(old(stream)@),
{
    let model = TreeObstacles::get_random(stream);
    let half_turns = stream.rand_range(1, 3);
    (model, tree_turns(half_turns))
}

/// What the forest places on one cell, drawn from a stream at `rng`: the
/// obstacle's model and quarter turns, if any, and the stream's state
/// afterwards. The roll is drawn from `0..101`; a boulder or a stump then
/// draws its rotation from the quarter turns `0..4`.
pub open spec fn forest_cell(rng: (u64, u64)) -> (Option<(ObstacleModel, u32)>, (u64, u64)) {
    let roll = rand32_range(rng, 0, ROLL_END);
    match spec_classify(roll.0) {
        Some(ObstacleClass::Tree) => {
            let tree = drawn_tree(roll.1);
            (Some(tree.0), tree.1)
        },
        Some(ObstacleClass::Boulder) => {
            let turns = rand32_range(roll.1, 0, 4);
            (Some((ObstacleModel::Boulder, turns.0)), turns.1)
        },
        Some(ObstacleClass::Stump) => {
            let turns = rand32_range(roll.1, 0, 4);
            (Some((ObstacleModel::Stump, turns.0)), turns.1)
        },
        None => (None, roll.1),
    }
}

/// Rolls for one cell of the forest.
pub fn roll_cell(stream: &mut RandomStream) -> (placed: Option<(ObstacleModel, u32)>)
    ensures
        (placed, final(stream)@) == forest_cell(old(stream)@),
{
    let roll = stream.rand_range(0, ROLL_END);
    match classify(roll) {
        Some(ObstacleClass::Tree) => Some(draw_tree(stream)),
        Some(ObstacleClass::Boulder) => {
            let turns = stream.rand_range(0, 4);
            Some((ObstacleModel::Boulder, turns))
        },
        Some(ObstacleClass::Stump) => {
            let turns = stream.rand_range(0, 4);
            Some((ObstacleModel::Stump, turns))
        },
        None => None,
    }
}

/// What the forest places on the cells of a chunk from lateral coordinate
/// `z` to the end of the band, in rising order and skipping the centre lane,
/// drawn from a stream at `rng`. With it, the stream's state afterwards.
pub open spec fn forest_row(rng: (u64, u64), z: int) -> (Seq<ObstaclePlacement>, (u64, u64))
    decreases MAP_MAX_Z - z,
{
    if z >= MAP_MAX_Z || z < MAP_MIN_Z {
        (Seq::empty(), rng)
    } else if z == 0 {
        forest_row(rng, z + 1)
    } else {
        let cell = forest_cell(rng);
        let rest = forest_row(cell.1, z + 1);
        match cell.0 {
            Some(obstacle) => (
                seq![
                    ObstaclePlacement { z: z as i32, model: obstacle.0, quarter_turns: obstacle.1 },
                ] + rest.0,
                rest.1,
            ),
            None => rest,
        }
    }
}

/// The forest places at most one obstacle per cell, in rising order of the
/// lateral coordinate, inside the band and never on the centre lane.
pub proof fn lemma_forest_row_lanes(rng: (u64, u64), z: int)
    requires
        MAP_MIN_Z <= z <= MAP_MAX_Z,
    ensures
        forest_row(rng, z).0.len() <= obstacle_lanes_from(z),
        forall|i: int|
            0 <= i < forest_row(rng, z).0.len() ==> z + i <= (#[trigger] forest_row(
                rng,
                z,
            ).0[i]).z < MAP_MAX_Z && forest_row(rng, z).0[i].z != 0,
    decreases MAP_MAX_Z - z,
{
    if z < MAP_MAX_Z {
        if z == 0 {
            lemma_forest_row_lanes(rng, z + 1);
        } else {
            lemma_forest_row_lanes(forest_cell(rng).1, z + 1);
        }
    }
}

/// Generates the obstacles of chunk `x` in the forest.
pub fn spawn_obstacles(x: i32, commands: &mut Commands, map: &mut WorldMap)
    requires
        on_live_chunk(old(map).chunks(), x as int),
        old(commands)@.spawned + CHUNK_WIDTH <= u64::MAX,
    ensures
        terrain(final(map), final(commands)) == with_obstacles(
            terrain(old(map), old(commands)),
            x,
            forest_row(old(map).rng(), MAP_MIN_Z as int).0,
            forest_row(old(map).rng(), MAP_MIN_Z as int).1,
        ),
        final(map).chunks() == old(map).chunks(),
        obstacles_added_on(old(map).obstacles(), final(map).obstacles(), x),
        centre_lane_clear(final(map).obstacles()),
        final(commands)@.obstacles.len() <= old(commands)@.obstacles.len()
            + MAX_CHUNK_OBSTACLES,
        final(commands)@.spawned <= old(commands)@.spawned + MAX_CHUNK_OBSTACLES,
{
    let ghost before = terrain(map, commands);
    let ghost row = forest_row(before.rng, MAP_MIN_Z as int);
    let ghost mut placed: Seq<ObstaclePlacement> = Seq::empty();
    let mut stream = map.random_generator();
    let mut z: i32 = MAP_MIN_Z;
    proof {
        assert(placed + row.0 =~= row.0);
        assert(terrain(map, commands) =~= with_obstacles(before, x, placed, before.rng));
    }
    while z < MAP_MAX_Z
        invariant
            MAP_MIN_Z <= z <= MAP_MAX_Z,
            before.commands.spawned + CHUNK_WIDTH <= u64::MAX,
            placed.len() <= z - MAP_MIN_Z,
            on_live_chunk(before.chunks, x as int),
            placed + forest_row(stream@, z as int).0 == row.0,
            forest_row(stream@, z as int).1 == row.1,
            terrain(map, commands) == with_obstacles(before, x, placed, before.rng),
        decreases MAP_MAX_Z - z,
    {
        if z != 0 {
            let ghost rest = forest_row(stream@, z as int).0;
            let cell = roll_cell(&mut stream);
            if let Some(obstacle) = cell {
                let ghost placement = ObstaclePlacement {
                    z,
                    model: obstacle.0,
                    quarter_turns: obstacle.1,
                };
                spawn_obstacle(commands, map, obstacle.0, x, z, obstacle.1);
                proof {
                    lemma_with_obstacles_push(before, x, placed, placement, before.rng);
                    assert(placed.push(placement) + forest_row(stream@, z + 1).0 =~= placed + rest);
                    placed = placed.push(placement);
                }
            }
        }
        z = z + 1;
    }
    proof {
        assert(placed + Seq::<ObstaclePlacement>::empty() =~= placed);
    }
    map.set_random_generator(stream);
    proof {
        lemma_forest_row_lanes(before.rng, MAP_MIN_Z as int);
        lemma_with_cells_keys(before.obstacles, x, row.0, before.commands.spawned);
        use_type_invariant(&*map);
    }
}

} // verus!
