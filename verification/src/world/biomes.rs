//! What every biome shares: how a chunk's ground and obstacles come into the
//! world, and how the oldest chunk leaves it.

use crate::commands::{Commands, CommandsView, Ground, Obstacle};
use crate::constants::{MAP_MAX_Z, MAP_MIN_Z};
use crate::resources::grounds::GroundModel;
use crate::resources::obstacles::ObstacleModel;
use crate::events::{Events, RequestNewChunkSpawning, RequestOldChunkDespawning};
use crate::world::biomes::crossy_valley::regions::forest::{forest_row, lemma_forest_row_lanes};
use crate::world::biomes::crossy_valley::regions::spawn_point::{
    lemma_spawn_point_row_lanes, spawn_point_row,
};
use crate::world::biomes::crossy_valley::regions::{forest, spawn_point};
use crate::world::biomes::layout::lemma_with_chunks_contiguous;
use crate::world::biomes::region_table::{region_at, Region, RegionTable};
use crate::world::occupancy::no_cells;
use crate::world::{
    centre_lane_clear, chunks_appended, next_chunk_x, obstacle_lane, on_live_chunk,
    range_entities, without_range, Chunk, ChunkView, WorldMap,
};
use vstd::prelude::*;

pub mod crossy_valley;
pub mod default;
pub mod layout;
pub mod region_table;

verus! {

/// Number of cells in a chunk.
pub const CHUNK_WIDTH: u64 = 20;

/// Most obstacles that a chunk can hold: one on every cell off the centre
/// lane.
pub const MAX_CHUNK_OBSTACLES: u64 = 19;

/// The state that terrain generation reads and changes, as mathematical
/// values: the world map and the command queue.
#[verifier::ext_equal]
pub struct Terrain {
    /// State words of the random stream.
    pub rng: (u64, u64),
    /// The live chunks, oldest first.
    pub chunks: Seq<ChunkView>,
    /// The occupied cells, each with the obstacle that stands on it.
    pub obstacles: Map<(i32, i32), u64>,
    /// The queued commands.
    pub commands: CommandsView,
}

/// The terrain that `map` and `commands` hold together.
pub open spec fn terrain(map: &WorldMap, commands: &Commands) -> Terrain {
    Terrain {
        rng: map.rng(),
        chunks: map.chunks(),
        obstacles: map.obstacles(),
        commands: commands@,
    }
}

/// An obstacle that a generator decided to place on a chunk.
#[derive(Clone, Copy, Debug, PartialEq, Eq, Structural)]
pub struct ObstaclePlacement {
    /// Lateral coordinate of the obstacle's cell.
    pub z: i32,
    pub model: ObstacleModel,
    /// Rotation about the vertical axis, in quarter turns.
    pub quarter_turns: u32,
}

/// The ground tiles of chunk `x`, one per cell of the lateral band in rising
/// order, with handles counting up from `first`.
pub open spec fn ground_row(x: i32, first: nat) -> Seq<Ground> {
    Seq::new(
        CHUNK_WIDTH as nat,
        |i: int|
            Ground {
                entity: (first + i) as u64,
                x,
                z: (MAP_MIN_Z + i) as i32,
                model: GroundModel::spec_for_cell(x as int, MAP_MIN_Z + i),
            },
    )
}

/// The handles of the tiles of [`ground_row`].
pub open spec fn ground_entities(first: nat) -> Seq<u64> {
    Seq::new(CHUNK_WIDTH as nat, |i: int| (first + i) as u64)
}

/// `terrain` after the ground of chunk `x` has been generated: the tiles'
/// spawns are queued, and the chunk that owns them is the newest.
pub open spec fn with_ground(terrain: Terrain, x: i32) -> Terrain {
    Terrain {
        chunks: terrain.chunks.push(
            ChunkView { position_x: x, entities: ground_entities(terrain.commands.spawned) },
        ),
        commands: CommandsView {
            spawned: terrain.commands.spawned + CHUNK_WIDTH as nat,
            grounds: terrain.commands.grounds + ground_row(x, terrain.commands.spawned),
            ..terrain.commands
        },
        ..terrain
    }
}

/// The obstacles of chunk `x` that `row` places, with handles counting up
/// from `first`.
pub open spec fn obstacle_row(x: i32, row: Seq<ObstaclePlacement>, first: nat) -> Seq<Obstacle> {
    Seq::new(
        row.len(),
        |i: int|
            Obstacle {
                entity: (first + i) as u64,
                x,
                z: row[i].z,
                model: row[i].model,
                quarter_turns: row[i].quarter_turns,
            },
    )
}

/// `cells` after the obstacles of [`obstacle_row`] have been registered, in
/// the row's order.
pub open spec fn with_cells(
    cells: Map<(i32, i32), u64>,
    x: i32,
    row: Seq<ObstaclePlacement>,
    first: nat,
) -> Map<(i32, i32), u64>
    decreases row.len(),
{
    if row.len() == 0 {
        cells
    } else {
        with_cells(cells, x, row.drop_last(), first).insert(
            (x, row.last().z),
            (first + row.len() - 1) as u64,
        )
    }
}

/// `row` places an obstacle on lane `z`.
pub open spec fn row_has_lane(row: Seq<ObstaclePlacement>, z: i32) -> bool {
    exists|i: int| 0 <= i < row.len() && (#[trigger] row[i]).z == z
}

/// `after` holds what `before` holds on every chunk but `x`, keeps the cells
/// of `before`, and whatever it holds besides stands on chunk `x`, inside the
/// lateral band and off the centre lane.
pub open spec fn obstacles_added_on(
    before: Map<(i32, i32), u64>,
    after: Map<(i32, i32), u64>,
    x: i32,
) -> bool {
    forall|cell: (i32, i32)|
        #![trigger after.dom().contains(cell)]
        #![trigger before.dom().contains(cell)]
        {
            &&& before.dom().contains(cell) ==> after.dom().contains(cell)
            &&& after.dom().contains(cell) && !before.dom().contains(cell) ==> cell.0 == x
                && obstacle_lane(cell.1 as int)
            &&& cell.0 != x && before.dom().contains(cell) ==> after[cell] == before[cell]
        }
}

/// Registering a row of obstacles on chunk `x` adds exactly the row's lanes
/// of that chunk to the occupied cells and leaves the other chunks' cells as
/// they were.
pub proof fn lemma_with_cells_keys(
    cells: Map<(i32, i32), u64>,
    x: i32,
    row: Seq<ObstaclePlacement>,
    first: nat,
)
    requires
        forall|i: int| 0 <= i < row.len() ==> obstacle_lane((#[trigger] row[i]).z as int),
    ensures
        obstacles_added_on(cells, with_cells(cells, x, row, first), x),
        forall|cell: (i32, i32)| #[trigger]
            with_cells(cells, x, row, first).dom().contains(cell) <==> cells.dom().contains(cell)
                || (cell.0 == x && row_has_lane(row, cell.1)),
    decreases row.len(),
{
    if row.len() > 0 {
        let shorter = row.drop_last();
        lemma_with_cells_keys(cells, x, shorter, first);
        let before = with_cells(cells, x, shorter, first);
        let after = with_cells(cells, x, row, first);
        assert forall|cell: (i32, i32)| #[trigger]
            after.dom().contains(cell) <==> cells.dom().contains(cell) || (cell.0 == x
                && row_has_lane(row, cell.1)) by {
            if cell.0 == x {
                if row_has_lane(shorter, cell.1) {
                    let i = choose|i: int| 0 <= i < shorter.len() && (#[trigger] shorter[i]).z
                        == cell.1;
                    assert(row[i] == shorter[i]);
                }
                if row_has_lane(row, cell.1) && cell.1 != row.last().z {
                    let i = choose|i: int| 0 <= i < row.len() && (#[trigger] row[i]).z == cell.1;
                    assert(shorter[i] == row[i]);
                }
                if cell.1 == row.last().z {
                    assert(row[row.len() - 1].z == cell.1);
                }
            }
        }
        assert(obstacle_lane(row[row.len() - 1].z as int));
    }
}

/// `terrain` after the obstacles of chunk `x` have been generated: `row` is
/// what the generator placed, and `rng` where it left the random stream.
pub open spec fn with_obstacles(
    terrain: Terrain,
    x: i32,
    row: Seq<ObstaclePlacement>,
    rng: (u64, u64),
) -> Terrain {
    Terrain {
        rng,
        obstacles: with_cells(terrain.obstacles, x, row, terrain.commands.spawned),
        commands: CommandsView {
            spawned: terrain.commands.spawned + row.len(),
            obstacles: terrain.commands.obstacles + obstacle_row(
                x,
                row,
                terrain.commands.spawned,
            ),
            ..terrain.commands
        },
        ..terrain
    }
}

/// Placing `row` and then `placement` is placing the row with the placement
/// appended.
pub proof fn lemma_with_obstacles_push(
    terrain: Terrain,
    x: i32,
    row: Seq<ObstaclePlacement>,
    placement: ObstaclePlacement,
    rng: (u64, u64),
)
    ensures
        with_obstacles(with_obstacles(terrain, x, row, rng), x, seq![placement], rng)
            == with_obstacles(terrain, x, row.push(placement), rng),
{
    let first = terrain.commands.spawned;
    let placed = with_obstacles(terrain, x, row, rng);
    let both = with_obstacles(placed, x, seq![placement], rng);
    let joined = with_obstacles(terrain, x, row.push(placement), rng);
    reveal_with_fuel(with_cells, 2);
    assert(seq![placement].drop_last() =~= Seq::<ObstaclePlacement>::empty());
    assert(row.push(placement).drop_last() =~= row);
    assert(both.obstacles == joined.obstacles);
    assert(both.commands.obstacles =~= joined.commands.obstacles);
    assert(both =~= joined);
}

/// Generates the ground of chunk `x`: queues the spawn of one tile per cell
/// of the lateral band and appends the chunk that owns them to the map.
pub fn spawn_ground(x: i32, commands: &mut Commands, map: &mut WorldMap)
    requires
        x == next_chunk_x(old(map).chunks()),
        old(commands)@.spawned + CHUNK_WIDTH <= u64::MAX,
    ensures
        terrain(final(map), final(commands)) == with_ground(terrain(old(map), old(commands)), x),
        chunks_appended(old(map).chunks(), final(map).chunks(), x as int, 1),
        final(map).chunks().last() == (ChunkView {
            position_x: x,
            entities: ground_entities(old(commands)@.spawned),
        }),
        final(map).obstacles() == old(map).obstacles(),
        final(map).rng() == old(map).rng(),
{
    let mut entities: Vec<u64> = Vec::new();
    let ghost first = commands@.spawned;
    let mut z: i32 = MAP_MIN_Z;
    while z < MAP_MAX_Z
        invariant
            MAP_MIN_Z <= z <= MAP_MAX_Z,
            first + CHUNK_WIDTH <= u64::MAX,
            commands@ == (CommandsView {
                spawned: first + (z - MAP_MIN_Z) as nat,
                grounds: old(commands)@.grounds + ground_row(x, first).take(z - MAP_MIN_Z),
                ..old(commands)@
            }),
            entities@ == ground_entities(first).take(z - MAP_MIN_Z),
        decreases MAP_MAX_Z - z,
    {
        let ground = commands.spawn_ground(GroundModel::for_cell(x, z), x, z);
        entities.push(ground);
        proof {
            let i = z - MAP_MIN_Z;
            assert(ground_row(x, first).take(i + 1) =~= ground_row(x, first).take(i).push(
                ground_row(x, first)[i],
            ));
            assert(commands@.grounds =~= old(commands)@.grounds + ground_row(x, first).take(
                i + 1,
            ));
            assert(entities@ =~= ground_entities(first).take(i + 1));
        }
        z = z + 1;
    }
    proof {
        assert(ground_row(x, first).take(CHUNK_WIDTH as int) =~= ground_row(x, first));
        assert(ground_entities(first).take(CHUNK_WIDTH as int) =~= ground_entities(first));
    }
    map.push_chunk(Chunk { position_x: x, entities });
    proof {
        let before = old(map).chunks();
        assert(map.chunks().take(before.len() as int) =~= before);
    }
}

/// Queues the spawn of one obstacle on cell `(x, z)` and registers it in the
/// map's occupancy index.
pub fn spawn_obstacle(
    commands: &mut Commands,
    map: &mut WorldMap,
    model: ObstacleModel,
    x: i32,
    z: i32,
    quarter_turns: u32,
)
    requires
        on_live_chunk(old(map).chunks(), x as int),
        obstacle_lane(z as int),
        old(commands)@.spawned < u64::MAX,
    ensures
        terrain(final(map), final(commands)) == with_obstacles(
            terrain(old(map), old(commands)),
            x,
            seq![ObstaclePlacement { z, model, quarter_turns }],
            old(map).rng(),
        ),
{
    let obstacle = commands.spawn_obstacle(model, x, z, quarter_turns);
    map.register_obstacle(x, z, obstacle);
    proof {
        let row = seq![ObstaclePlacement { z, model, quarter_turns }];
        let first = old(commands)@.spawned;
        reveal_with_fuel(with_cells, 2);
        assert(row.drop_last() =~= Seq::<ObstaclePlacement>::empty());
        assert(with_cells(old(map).obstacles(), x, row, first) == old(map).obstacles().insert(
            (x, z),
            first as u64,
        ));
        assert(commands@.obstacles =~= old(commands)@.obstacles + obstacle_row(x, row, first));
    }
}

/// What `region` places on chunk `x`, drawn from a stream at `rng`, and the
/// stream's state afterwards. A meadow holds no obstacles.
pub open spec fn region_row(region: Region, rng: (u64, u64), x: i32) -> (
    Seq<ObstaclePlacement>,
    (u64, u64),
) {
    match region {
        Region::SpawnPoint => spawn_point_row(rng, x, MAP_MIN_Z as int),
        Region::Forest => forest_row(rng, MAP_MIN_Z as int),
        Region::Meadow => (Seq::empty(), rng),
    }
}

/// A region places at most one obstacle per cell of a chunk, in rising order
/// of the lateral coordinate, inside the band and never on the centre lane.
pub proof fn lemma_region_row_lanes(region: Region, rng: (u64, u64), x: i32)
    ensures
        region_row(region, rng, x).0.len() <= MAX_CHUNK_OBSTACLES,
        forall|i: int|
            0 <= i < region_row(region, rng, x).0.len() ==> MAP_MIN_Z + i <= (
            #[trigger] region_row(region, rng, x).0[i]).z < MAP_MAX_Z && region_row(
                region,
                rng,
                x,
            ).0[i].z != 0,
{
    match region {
        Region::SpawnPoint => lemma_spawn_point_row_lanes(rng, x, MAP_MIN_Z as int),
        Region::Forest => lemma_forest_row_lanes(rng, MAP_MIN_Z as int),
        Region::Meadow => {},
    }
}

/// `terrain` after chunk `x` has been generated in `region`: first its
/// ground, then its obstacles.
pub open spec fn with_chunk(terrain: Terrain, region: Region, x: i32) -> Terrain {
    let grounded = with_ground(terrain, x);
    let row = region_row(region, grounded.rng, x);
    with_obstacles(grounded, x, row.0, row.1)
}

/// `terrain` after `count` chunks have been generated from coordinate `x`
/// onwards, each in the region that `regions` assigns to its coordinate, or
/// in `fallback` where they assign none.
pub open spec fn with_chunks(
    terrain: Terrain,
    regions: Map<i32, Region>,
    fallback: Region,
    x: int,
    count: nat,
) -> Terrain
    decreases count,
{
    if count == 0 {
        terrain
    } else {
        let last = (x + count - 1) as i32;
        with_chunk(
            with_chunks(terrain, regions, fallback, x, (count - 1) as nat),
            region_at(regions, last, fallback),
            last,
        )
    }
}

/// `regions` without the coordinates from `x` up to, and without, `end`.
pub open spec fn without_coordinates(regions: Map<i32, Region>, x: int, end: int) -> Map<
    i32,
    Region,
> {
    regions.remove_keys(Set::new(|key: i32| x <= key < end))
}

/// `terrain` after its oldest chunk has been despawned: the despawns of the
/// chunk's tiles are queued, then those of its obstacles in rising order of
/// their lateral coordinate, and neither chunk nor obstacles are in the map
/// any more. Without a chunk nothing happens.
pub open spec fn without_front(terrain: Terrain) -> Terrain {
    if terrain.chunks.len() == 0 {
        terrain
    } else {
        let x = terrain.chunks[0].position_x;
        Terrain {
            chunks: terrain.chunks.skip(1),
            obstacles: without_range(terrain.obstacles, x, MAP_MAX_Z as int),
            commands: CommandsView {
                despawned: terrain.commands.despawned + terrain.chunks[0].entities
                    + range_entities(terrain.obstacles, x, MAP_MIN_Z as int),
                ..terrain.commands
            },
            ..terrain
        }
    }
}

/// `terrain` after its oldest chunk has been despawned `count` times over.
pub open spec fn without_fronts(terrain: Terrain, count: nat) -> Terrain
    decreases count,
{
    if count == 0 {
        terrain
    } else {
        without_front(without_fronts(terrain, (count - 1) as nat))
    }
}

impl Region {
    /// Generates the ground of chunk `x`. Every region lays the same ground.
    pub fn spawn_ground(&self, x: i32, commands: &mut Commands, map: &mut WorldMap)
        requires
            x == next_chunk_x(old(map).chunks()),
            old(commands)@.spawned + CHUNK_WIDTH <= u64::MAX,
        ensures
            terrain(final(map), final(commands)) == with_ground(
                terrain(old(map), old(commands)),
                x,
            ),
            chunks_appended(old(map).chunks(), final(map).chunks(), x as int, 1),
            final(map).obstacles() == old(map).obstacles(),
            final(map).rng() == old(map).rng(),
    {
        spawn_ground(x, commands, map);
    }

    /// Generates the obstacles of chunk `x` as this region places them.
    pub fn spawn_obstacles(&self, x: i32, commands: &mut Commands, map: &mut WorldMap)
        requires
            on_live_chunk(old(map).chunks(), x as int),
            old(commands)@.spawned + CHUNK_WIDTH <= u64::MAX,
        ensures
            terrain(final(map), final(commands)) == with_obstacles(
                terrain(old(map), old(commands)),
                x,
                region_row(*self, old(map).rng(), x).0,
                region_row(*self, old(map).rng(), x).1,
            ),
            final(map).chunks() == old(map).chunks(),
            obstacles_added_on(old(map).obstacles(), final(map).obstacles(), x),
            centre_lane_clear(final(map).obstacles()),
            final(commands)@.obstacles.len() <= old(commands)@.obstacles.len()
                + MAX_CHUNK_OBSTACLES,
            final(commands)@.spawned <= old(commands)@.spawned + MAX_CHUNK_OBSTACLES,
    {
        match self {
            Region::SpawnPoint => spawn_point::spawn_obstacles(x, commands, map),
            Region::Forest => forest::spawn_obstacles(x, commands, map),
            Region::Meadow => {
                proof {
                    let before = terrain(map, commands);
                    assert(before.commands.obstacles + obstacle_row(
                        x,
                        Seq::empty(),
                        before.commands.spawned,
                    ) =~= before.commands.obstacles);
                    assert(before =~= with_obstacles(before, x, Seq::empty(), before.rng));
                    use_type_invariant(&*map);
                }
            },
        }
    }

    /// Generates chunk `x`: its ground, then its obstacles.
    pub fn spawn_chunk(&self, x: i32, commands: &mut Commands, map: &mut WorldMap)
        requires
            x == next_chunk_x(old(map).chunks()),
            old(commands)@.spawned + 2 * CHUNK_WIDTH <= u64::MAX,
        ensures
            terrain(final(map), final(commands)) == with_chunk(
                terrain(old(map), old(commands)),
                *self,
                x,
            ),
            chunks_appended(old(map).chunks(), final(map).chunks(), x as int, 1),
            obstacles_added_on(old(map).obstacles(), final(map).obstacles(), x),
            centre_lane_clear(final(map).obstacles()),
            final(commands)@.spawned <= old(commands)@.spawned + CHUNK_WIDTH
                + MAX_CHUNK_OBSTACLES,
    {
        self.spawn_ground(x, commands, map);
        proof {
            use_type_invariant(&*map);
            let chunks = map.chunks();
            assert(chunks.last().position_x == x);
            assert(chunks[chunks.len() - 1].position_x == chunks[0].position_x + chunks.len() - 1);
        }
        self.spawn_obstacles(x, commands, map);
    }
}

/// Serves every waiting request for a new chunk: the chunks are generated
/// behind the newest one, at consecutive coordinates. Each coordinate's region
/// is looked up in `regions` once, with `fallback` for a coordinate without
/// entry, and its entry is gone afterwards.
pub(crate) fn spawn_new_chunks(
    commands: &mut Commands,
    new_chunk_spawning_requests: &mut Events<RequestNewChunkSpawning>,
    regions: &mut RegionTable,
    fallback: Region,
    map: &mut WorldMap,
)
    requires
        next_chunk_x(old(map).chunks()) + old(new_chunk_spawning_requests)@.len() <= i32::MAX + 1,
        old(commands)@.spawned + 2 * CHUNK_WIDTH * old(new_chunk_spawning_requests)@.len()
            <= u64::MAX,
    ensures
        final(new_chunk_spawning_requests)@.len() == 0,
        terrain(final(map), final(commands)) == with_chunks(
            terrain(old(map), old(commands)),
            old(regions)@,
            fallback,
            next_chunk_x(old(map).chunks()),
            old(new_chunk_spawning_requests)@.len(),
        ),
        final(regions)@ == without_coordinates(
            old(regions)@,
            next_chunk_x(old(map).chunks()),
            next_chunk_x(old(map).chunks()) + old(new_chunk_spawning_requests)@.len(),
        ),
        chunks_appended(
            old(map).chunks(),
            final(map).chunks(),
            next_chunk_x(old(map).chunks()),
            old(new_chunk_spawning_requests)@.len(),
        ),
        centre_lane_clear(final(map).obstacles()),
        final(commands)@.spawned <= old(commands)@.spawned + 2 * CHUNK_WIDTH * old(
            new_chunk_spawning_requests,
        )@.len(),
        old(new_chunk_spawning_requests)@.len() == 0 ==> terrain(final(map), final(commands))
            == terrain(old(map), old(commands)) && final(regions)@ == old(regions)@,
{
    proof {
        use_type_invariant(&*map);
    }
    let from_x = map.next_chunk_x();
    let count = new_chunk_spawning_requests.len();
    let ghost before = terrain(map, commands);
    let ghost table = regions@;
    let mut served: usize = 0;
    proof {
        assert(regions@ =~= without_coordinates(table, from_x as int, from_x as int));
    }
    while served < count
        invariant
            served <= count,
            from_x + count <= i32::MAX + 1,
            from_x == next_chunk_x(before.chunks),
            before.commands.spawned + 40 * count <= u64::MAX,
            next_chunk_x(map.chunks()) == from_x + served,
            terrain(map, commands) == with_chunks(
                before,
                table,
                fallback,
                from_x as int,
                served as nat,
            ),
            commands@.spawned <= before.commands.spawned + 40 * served,
            regions@ == without_coordinates(table, from_x as int, from_x + served),
        decreases count - served,
    {
        let x = (from_x + served as i64) as i32;
        let region = regions.or_insert(x, fallback);
        let ghost generated = terrain(map, commands);
        region.spawn_chunk(x, commands, map);
        regions.remove(x);
        proof {
            assert(regions@ =~= without_coordinates(table, from_x as int, from_x + served + 1));
            lemma_region_row_lanes(region, generated.rng, x);
        }
        served = served + 1;
    }
    new_chunk_spawning_requests.clear();
    proof {
        lemma_with_chunks_contiguous(before, table, fallback, from_x as int, count as nat);
        use_type_invariant(&*map);
    }
}

/// The systems that every biome runs.
pub struct StandardBiomeSystems;

impl StandardBiomeSystems {
    /// Serves every waiting request to despawn the oldest chunk: for each,
    /// the despawns of the oldest chunk's tiles and obstacles are queued and
    /// the chunk leaves the map. A request that finds no chunk does nothing.
    pub fn despawn_old_chunk(
        commands: &mut Commands,
        old_chunk_despawning_requests: &mut Events<RequestOldChunkDespawning>,
        map: &mut WorldMap,
    )
        ensures
            final(old_chunk_despawning_requests)@.len() == 0,
            terrain(final(map), final(commands)) == without_fronts(
                terrain(old(map), old(commands)),
                old(old_chunk_despawning_requests)@.len(),
            ),
    {
        let count = old_chunk_despawning_requests.len();
        let ghost before = terrain(map, commands);
        let mut served: usize = 0;
        while served < count
            invariant
                served <= count,
                terrain(map, commands) == without_fronts(before, served as nat),
            decreases count - served,
        {
            despawn_front_chunk(commands, map);
            served = served + 1;
        }
        old_chunk_despawning_requests.clear();
    }

    /// Takes the whole world down: the despawns of every chunk's tiles and
    /// obstacles are queued, oldest chunk first, and the map is left without
    /// chunks and without obstacles.
    pub fn leave_biome(commands: &mut Commands, map: &mut WorldMap)
        ensures
            terrain(final(map), final(commands)) == without_fronts(
                terrain(old(map), old(commands)),
                old(map).chunks().len(),
            ),
            final(map).chunks().len() == 0,
            final(map).obstacles() == no_cells(),
    {
        let count = map.len();
        let ghost before = terrain(map, commands);
        let mut served: usize = 0;
        while served < count
            invariant
                served <= count,
                count == before.chunks.len(),
                terrain(map, commands) == without_fronts(before, served as nat),
                map.chunks().len() == count - served,
            decreases count - served,
        {
            despawn_front_chunk(commands, map);
            served = served + 1;
        }
        proof {
            use_type_invariant(&*map);
            assert(map.obstacles() =~= no_cells());
        }
        map.clear();
        proof {
            assert(terrain(map, commands) =~= without_fronts(before, count as nat));
        }
    }
}

/// Despawns the oldest chunk, if there is one.
pub fn despawn_front_chunk(commands: &mut Commands, map: &mut WorldMap)
    ensures
        terrain(final(map), final(commands)) == without_front(terrain(old(map), old(commands))),
{
    let ghost before = terrain(map, commands);
    let chunk_position_x = match map.front() {
        Some(chunk) => chunk.position_x,
        None => {
            return ;
        },
    };
    let obstacles = map.unregister_range(chunk_position_x);
    proof {
        use_type_invariant(&*map);
    }
    let popped = map.pop_front_chunk();
    let chunk = popped.unwrap();
    despawn_all(commands, &chunk.entities);
    despawn_all(commands, &obstacles);
    proof {
        assert(terrain(map, commands) =~= without_front(before));
    }
}

/// Queues the despawn of each of `entities`, in their order.
pub fn despawn_all(commands: &mut Commands, entities: &Vec<u64>)
    ensures
        final(commands)@ == (CommandsView {
            despawned: old(commands)@.despawned + entities@,
            ..old(commands)@
        }),
{
    let mut index: usize = 0;
    proof {
        assert(commands@.despawned + entities@.take(0) =~= commands@.despawned);
    }
    while index < entities.len()
        invariant
            index <= entities.len(),
            commands@ == (CommandsView {
                despawned: old(commands)@.despawned + entities@.take(index as int),
                ..old(commands)@
            }),
        decreases entities.len() - index,
    {
        commands.despawn(entities[index]);
        proof {
            assert(entities@.take(index + 1) =~= entities@.take(index as int).push(
                entities@[index as int],
            ));
            assert(commands@.despawned =~= old(commands)@.despawned + entities@.take(index + 1));
        }
        index = index + 1;
    }
    proof {
        assert(entities@.take(entities.len() as int) =~= entities@);
    }
}

} // verus!
