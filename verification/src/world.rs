//! The lane grid: the queue of live chunks, the obstacles that stand on them,
//! and the random stream that terrain generation draws from.

use crate::constants::{INITIAL_CHUNKS, MAP_MAX_Z, MAP_MIN_X, MAP_MIN_Z, MAP_SEED};
use crate::events::{
    DevRequestBiome, Events, RequestNewChunkSpawning, RequestOldChunkDespawning,
};
use crate::random::{rand32_range, seeded_state, RandomStream};
use crate::states::{AppState, CurrentBiome};
use crate::world::occupancy::{cell_entry, no_cells, ObstacleIndex};
use std::collections::VecDeque;
use vstd::prelude::*;

pub mod biomes;
pub mod occupancy;

verus! {

/// One unit-wide cross-section of the lane grid.
#[derive(Clone, Debug)]
pub struct Chunk {
    /// Longitudinal coordinate of the chunk.
    pub position_x: i32,
    /// The ground tiles that the chunk owns.
    pub entities: Vec<u64>,
}

/// What a [`Chunk`] holds, as mathematical values.
#[verifier::ext_equal]
pub struct ChunkView {
    pub position_x: i32,
    pub entities: Seq<u64>,
}

impl View for Chunk {
    type V = ChunkView;

    open spec fn view(&self) -> ChunkView {
        ChunkView { position_x: self.position_x, entities: self.entities@ }
    }
}

/// The coordinates of `chunks` rise by exactly one from each chunk to the
/// next.
pub open spec fn contiguous(chunks: Seq<ChunkView>) -> bool {
    forall|i: int|
        0 <= i < chunks.len() ==> (#[trigger] chunks[i]).position_x == chunks[0].position_x + i
}

/// One of `chunks` lies at longitudinal coordinate `x`.
pub open spec fn on_live_chunk(chunks: Seq<ChunkView>, x: int) -> bool {
    chunks.len() > 0 && chunks[0].position_x <= x < chunks[0].position_x + chunks.len()
}

/// Lateral coordinate `z` lies in the band that chunks cover, off the centre
/// lane, which is kept free of obstacles.
pub open spec fn obstacle_lane(z: int) -> bool {
    MAP_MIN_Z <= z < MAP_MAX_Z && z != 0
}

/// Number of lanes from `z` to the end of the band that may hold an obstacle.
pub open spec fn obstacle_lanes_from(z: int) -> int {
    MAP_MAX_Z - z - if z <= 0 {
        1int
    } else {
        0int
    }
}

/// No obstacle of `cells` stands on the centre lane.
pub open spec fn centre_lane_clear(cells: Map<(i32, i32), u64>) -> bool {
    forall|x: i32| !(#[trigger] cells.dom().contains((x, 0i32)))
}

/// `after` continues `before` by `count` chunks at the coordinates from `x`
/// onwards: the chunks of `before` are untouched, the new ones follow them in
/// rising order, and the whole is contiguous.
pub open spec fn chunks_appended(
    before: Seq<ChunkView>,
    after: Seq<ChunkView>,
    x: int,
    count: nat,
) -> bool {
    &&& after.len() == before.len() + count
    &&& after.take(before.len() as int) == before
    &&& forall|i: int|
        0 <= i < count ==> (#[trigger] after[before.len() + i]).position_x == x + i
    &&& contiguous(after)
}

/// Cell `z` of the oldest of `chunks`.
pub open spec fn front_cell(chunks: Seq<ChunkView>, z: i32) -> (i32, i32) {
    (chunks[0].position_x, z)
}

/// The coordinate that the next chunk pushed behind `chunks` must have.
pub open spec fn next_chunk_x(chunks: Seq<ChunkView>) -> int {
    if chunks.len() == 0 {
        MAP_MIN_X as int
    } else {
        chunks.last().position_x + 1
    }
}

/// `cells` without the cells of chunk `x` whose lateral coordinate is below
/// `z_end`.
pub open spec fn without_range(cells: Map<(i32, i32), u64>, x: i32, z_end: int) -> Map<
    (i32, i32),
    u64,
> {
    cells.remove_keys(Set::new(|cell: (i32, i32)| cell.0 == x && MAP_MIN_Z <= cell.1 < z_end))
}

/// The entities that `cells` holds on chunk `x` at lateral coordinates from
/// `z` up to the end of the band, in rising order of the coordinate.
pub open spec fn range_entities(cells: Map<(i32, i32), u64>, x: i32, z: int) -> Seq<u64>
    decreases MAP_MAX_Z - z,
{
    if z >= MAP_MAX_Z || z < i32::MIN {
        Seq::empty()
    } else if cells.dom().contains((x, z as i32)) {
        seq![cells[(x, z as i32)]] + range_entities(cells, x, z + 1)
    } else {
        range_entities(cells, x, z + 1)
    }
}

/// The world's authoritative state.
pub struct WorldMap {
    random_generator: RandomStream,
    chunks: VecDeque<Chunk>,
    obstacles_xz: ObstacleIndex,
}

impl WorldMap {
    /// The live chunks, oldest first.
    pub closed spec fn chunks(&self) -> Seq<ChunkView> {
        self.chunks@.map_values(|chunk: Chunk| chunk@)
    }

    /// The occupied cells, each with the obstacle that stands on it.
    pub closed spec fn obstacles(&self) -> Map<(i32, i32), u64> {
        self.obstacles_xz@
    }

    /// State words of the random stream.
    pub closed spec fn rng(&self) -> (u64, u64) {
        self.random_generator@
    }

    /// Holds of every map: the chunks are contiguous, and every obstacle
    /// stands on a live chunk, inside the lateral band and off the centre
    /// lane.
    #[verifier::type_invariant]
    pub open spec fn well_formed(&self) -> bool {
        &&& contiguous(self.chunks())
        &&& forall|cell: (i32, i32)| #[trigger]
            self.obstacles().dom().contains(cell) ==> on_live_chunk(self.chunks(), cell.0 as int)
                && obstacle_lane(cell.1 as int)
    }

    /// An empty map whose random stream starts from the fixed seed.
    pub fn new() -> (map: WorldMap)
        ensures
            map.chunks() == Seq::<ChunkView>::empty(),
            map.obstacles() == no_cells(),
            map.rng() == seeded_state(MAP_SEED),
    {
        let map = WorldMap {
            random_generator: RandomStream::new(MAP_SEED),
            chunks: VecDeque::new(),
            obstacles_xz: ObstacleIndex::new(),
        };
        assert(map.chunks() =~= Seq::<ChunkView>::empty());
        map
    }

    /// Number of live chunks.
    pub fn len(&self) -> (count: usize)
        ensures
            count == self.chunks().len(),
    {
        self.chunks.len()
    }

    /// Whether there is no live chunk.
    pub fn is_empty(&self) -> (empty: bool)
        ensures
            empty == (self.chunks().len() == 0),
    {
        self.chunks.len() == 0
    }

    /// The live chunk at position `index`, counted from the oldest. Its
    /// coordinate is that of the oldest chunk plus `index`.
    pub fn chunk(&self, index: usize) -> (chunk: Option<&Chunk>)
        ensures
            index >= self.chunks().len() ==> chunk.is_none(),
            index < self.chunks().len() ==> chunk.is_some() && chunk.unwrap()@
                == self.chunks()[index as int] && chunk.unwrap().position_x
                == self.chunks()[0].position_x + index,
            contiguous(self.chunks()),
    {
        proof {
            use_type_invariant(self);
        }
        if index < self.chunks.len() {
            Some(&self.chunks[index])
        } else {
            None
        }
    }

    /// The oldest live chunk.
    pub fn front(&self) -> (chunk: Option<&Chunk>)
        ensures
            self.chunks().len() == 0 ==> chunk.is_none(),
            self.chunks().len() > 0 ==> chunk.is_some() && chunk.unwrap()@ == self.chunks()[0],
    {
        if self.chunks.len() == 0 {
            None
        } else {
            Some(&self.chunks[0])
        }
    }

    /// The newest live chunk.
    pub fn back(&self) -> (chunk: Option<&Chunk>)
        ensures
            self.chunks().len() == 0 ==> chunk.is_none(),
            self.chunks().len() > 0 ==> chunk.is_some() && chunk.unwrap()@
                == self.chunks().last(),
    {
        let count = self.chunks.len();
        if count == 0 {
            None
        } else {
            Some(&self.chunks[count - 1])
        }
    }
    /// Restarts the random stream from `seed`.
    pub fn reseed(&mut self, seed: u64)
        ensures
            final(self).rng() == seeded_state(seed),
            final(self).chunks() == old(self).chunks(),
            final(self).obstacles() == old(self).obstacles(),
    {
        self.set_random_generator(RandomStream::new(seed));
    }

    /// Moves the random stream to the position of `stream`.
    pub fn set_random_generator(&mut self, stream: RandomStream)
        ensures
            final(self).rng() == stream@,
            final(self).chunks() == old(self).chunks(),
            final(self).obstacles() == old(self).obstacles(),
    {
        proof {
            use_type_invariant(&*self);
            // Chunks and obstacles are read from fields that the assignment
            // leaves alone.
            assert(self.chunks().len() == self.chunks@.len());
            assert(self.obstacles() == self.obstacles_xz@);
        }
        self.random_generator = stream;
    }

    /// The current position of the random stream.
    pub fn random_generator(&self) -> (stream: RandomStream)
        ensures
            stream@ == self.rng(),
    {
        self.random_generator
    }

    /// Draws the next value in `low..high` from the random stream.
    pub fn rand_range(&mut self, low: u32, high: u32) -> (value: u32)
        requires
            low < high,
        ensures
            (value, final(self).rng()) == rand32_range(old(self).rng(), low, high),
            low <= value < high,
            final(self).chunks() == old(self).chunks(),
            final(self).obstacles() == old(self).obstacles(),
    {
        let mut stream = self.random_generator;
        let value = stream.rand_range(low, high);
        self.set_random_generator(stream);
        value
    }

    /// The coordinate that the next chunk will get: one past the newest
    /// chunk, or the world's first coordinate while there is no chunk.
    pub fn next_chunk_x(&self) -> (x: i64)
        ensures
            x == next_chunk_x(self.chunks()),
    {
        let count = self.chunks.len();
        if count == 0 {
            MAP_MIN_X as i64
        } else {
            self.chunks[count - 1].position_x as i64 + 1
        }
    }

    /// Appends `chunk` behind the newest chunk. Its coordinate must be the
    /// one that [`WorldMap::next_chunk_x`] gives.
    pub fn push_chunk(&mut self, chunk: Chunk)
        requires
            chunk.position_x == next_chunk_x(old(self).chunks()),
        ensures
            final(self).chunks() == old(self).chunks().push(chunk@),
            contiguous(final(self).chunks()),
            final(self).obstacles() == old(self).obstacles(),
            final(self).rng() == old(self).rng(),
    {
        proof {
            use_type_invariant(&*self);
        }
        let ghost before = self.chunks();
        let ghost pushed = chunk@;
        let index = self.take_obstacles();
        let mut chunks = self.take_chunks();
        chunks.push_back(chunk);
        proof {
            assert(chunks@.map_values(|chunk: Chunk| chunk@) =~= before.push(pushed));
        }
        self.put_chunks(chunks);
        self.put_obstacles(index);
        proof {
            use_type_invariant(&*self);
        }
    }

    /// Removes and returns the oldest chunk. Its obstacles must have been
    /// unregistered before.
    pub fn pop_front_chunk(&mut self) -> (popped: Option<Chunk>)
        requires
            old(self).chunks().len() > 0 ==> forall|z: i32|
                !old(self).obstacles().dom().contains(
                    (#[trigger] front_cell(old(self).chunks(), z)),
                ),
        ensures
            old(self).chunks().len() == 0 ==> popped.is_none() && final(self).chunks() == old(
                self,
            ).chunks(),
            old(self).chunks().len() > 0 ==> popped.is_some() && popped.unwrap()@ == old(
                self,
            ).chunks()[0] && final(self).chunks() == old(self).chunks().skip(1),
            contiguous(final(self).chunks()),
            final(self).obstacles() == old(self).obstacles(),
            final(self).rng() == old(self).rng(),
    {
        proof {
            use_type_invariant(&*self);
        }
        let ghost before = self.chunks();
        if self.chunks.len() == 0 {
            return None;
        }
        proof {
            assert forall|cell: (i32, i32)| #[trigger]
                self.obstacles().dom().contains(cell) implies on_live_chunk(
                before.skip(1),
                cell.0 as int,
            ) by {
                if cell.0 == before[0].position_x {
                    assert(cell == front_cell(before, cell.1));
                }
            }
            assert(contiguous(before.skip(1))) by {
                assert forall|i: int| 0 <= i < before.skip(1).len() implies (
                #[trigger] before.skip(1)[i]).position_x == before.skip(1)[0].position_x
                    + i by {
                    assert(before.skip(1)[i] == before[i + 1]);
                    assert(before.skip(1)[0] == before[1]);
                }
            }
            assert(self.chunks@.skip(1).map_values(|chunk: Chunk| chunk@) =~= before.skip(1));
            assert(self.chunks@.subrange(1, self.chunks@.len() as int) =~= self.chunks@.skip(1));
        }
        let index = self.take_obstacles();
        let mut chunks = self.take_chunks();
        let popped = chunks.pop_front();
        self.put_chunks(chunks);
        self.put_obstacles(index);
        proof {
            use_type_invariant(&*self);
        }
        popped
    }

    /// Whether an obstacle stands on cell `(x, z)`. An occupied cell lies on
    /// a live chunk, inside the lateral band and off the centre lane.
    pub fn is_occupied(&self, x: i32, z: i32) -> (occupied: bool)
        ensures
            occupied == self.obstacles().dom().contains((x, z)),
            occupied ==> on_live_chunk(self.chunks(), x as int) && obstacle_lane(z as int),
    {
        let occupied = self.obstacles_xz.get(x, z).is_some();
        proof {
            use_type_invariant(self);
            if occupied {
                assert(self.obstacles().dom().contains((x, z)));
            }
        }
        occupied
    }

    /// The obstacle that stands on cell `(x, z)`, if there is one.
    pub fn obstacle_at(&self, x: i32, z: i32) -> (entity: Option<u64>)
        ensures
            entity == cell_entry(self.obstacles(), x, z),
    {
        self.obstacles_xz.get(x, z)
    }

    /// Records that obstacle `entity` stands on cell `(x, z)`. The cell must
    /// lie on a live chunk, inside the lateral band and off the centre lane.
    pub fn register_obstacle(&mut self, x: i32, z: i32, entity: u64)
        requires
            on_live_chunk(old(self).chunks(), x as int),
            obstacle_lane(z as int),
        ensures
            final(self).obstacles() == old(self).obstacles().insert((x, z), entity),
            final(self).chunks() == old(self).chunks(),
            final(self).rng() == old(self).rng(),
    {
        proof {
            use_type_invariant(&*self);
        }
        let mut index = self.take_obstacles();
        let _ = index.insert(x, z, entity);
        self.put_obstacles(index);
    }

    /// Removes every obstacle of chunk `x` from the index and returns their
    /// entities, in rising order of the lateral coordinate.
    pub fn unregister_range(&mut self, x: i32) -> (removed: Vec<u64>)
        ensures
            final(self).obstacles() == without_range(old(self).obstacles(), x, MAP_MAX_Z as int),
            removed@ == range_entities(old(self).obstacles(), x, MAP_MIN_Z as int),
            final(self).chunks() == old(self).chunks(),
            final(self).rng() == old(self).rng(),
    {
        proof {
            use_type_invariant(&*self);
        }
        let ghost before = self.obstacles();
        let mut index = self.take_obstacles();
        let mut removed: Vec<u64> = Vec::new();
        let mut z: i32 = MAP_MIN_Z;
        proof {
            assert(index@ =~= without_range(before, x, MAP_MIN_Z as int));
        }
        while z < MAP_MAX_Z
            invariant
                MAP_MIN_Z <= z <= MAP_MAX_Z,
                index@ == without_range(before, x, z as int),
                removed@ + range_entities(before, x, z as int) == range_entities(
                    before,
                    x,
                    MAP_MIN_Z as int,
                ),
            decreases MAP_MAX_Z - z,
        {
            let ghost current = index@;
            let ghost collected = removed@;
            let entry = index.remove(x, z);
            if let Some(entity) = entry {
                removed.push(entity);
            }
            proof {
                assert(current.remove((x, z)) =~= without_range(before, x, z + 1));
                assert(removed@ + range_entities(before, x, z + 1) =~= collected
                    + range_entities(before, x, z as int));
            }
            z = z + 1;
        }
        proof {
            assert(removed@ + Seq::<u64>::empty() =~= removed@);
        }
        self.put_obstacles(index);
        removed
    }

    /// Forgets every chunk and every obstacle.
    pub fn clear(&mut self)
        ensures
            final(self).chunks() == Seq::<ChunkView>::empty(),
            final(self).obstacles() == no_cells(),
            final(self).rng() == old(self).rng(),
    {
        let mut index = self.take_obstacles();
        index.clear();
        let mut chunks = self.take_chunks();
        chunks.clear();
        proof {
            assert(chunks@.map_values(|chunk: Chunk| chunk@) =~= Seq::<ChunkView>::empty());
        }
        self.put_chunks(chunks);
        self.put_obstacles(index);
    }

    /// Moves the obstacle index out of the map and leaves an empty one.
    fn take_obstacles(&mut self) -> (index: ObstacleIndex)
        ensures
            index@ == old(self).obstacles(),
            final(self).obstacles() == no_cells(),
            final(self).chunks() == old(self).chunks(),
            final(self).chunks@ == old(self).chunks@,
            final(self).rng() == old(self).rng(),
    {
        proof {
            use_type_invariant(&*self);
        }
        let mut index = ObstacleIndex::new();
        core::mem::swap(&mut self.obstacles_xz, &mut index);
        index
    }

    /// Moves `index` into the map, whose own index is dropped.
    fn put_obstacles(&mut self, index: ObstacleIndex)
        requires
            forall|cell: (i32, i32)| #[trigger]
                index@.dom().contains(cell) ==> on_live_chunk(old(self).chunks(), cell.0 as int)
                    && obstacle_lane(cell.1 as int),
        ensures
            final(self).obstacles() == index@,
            final(self).chunks() == old(self).chunks(),
            final(self).chunks@ == old(self).chunks@,
            final(self).rng() == old(self).rng(),
    {
        proof {
            use_type_invariant(&*self);
        }
        let mut index = index;
        core::mem::swap(&mut self.obstacles_xz, &mut index);
    }

    /// Moves the chunk queue out of a map without obstacles and leaves an
    /// empty queue.
    fn take_chunks(&mut self) -> (chunks: VecDeque<Chunk>)
        requires
            old(self).obstacles() == no_cells(),
        ensures
            chunks@ == old(self).chunks@,
            final(self).obstacles() == no_cells(),
            final(self).chunks() == Seq::<ChunkView>::empty(),
            final(self).rng() == old(self).rng(),
    {
        let mut chunks: VecDeque<Chunk> = VecDeque::new();
        proof {
            assert(chunks@.map_values(|chunk: Chunk| chunk@) =~= Seq::<ChunkView>::empty());
        }
        core::mem::swap(&mut self.chunks, &mut chunks);
        chunks
    }

    /// Moves `chunks` into a map without obstacles, whose own queue is
    /// dropped.
    fn put_chunks(&mut self, chunks: VecDeque<Chunk>)
        requires
            old(self).obstacles() == no_cells(),
            contiguous(chunks@.map_values(|chunk: Chunk| chunk@)),
        ensures
            final(self).chunks@ == chunks@,
            final(self).chunks() == chunks@.map_values(|chunk: Chunk| chunk@),
            final(self).obstacles() == no_cells(),
            final(self).rng() == old(self).rng(),
    {
        let mut chunks = chunks;
        core::mem::swap(&mut self.chunks, &mut chunks);
    }
}

impl Default for WorldMap {
    fn default() -> (map: WorldMap)
        ensures
            map.chunks() == Seq::<ChunkView>::empty(),
            map.obstacles() == no_cells(),
            map.rng() == seeded_state(MAP_SEED),
    {
        WorldMap::new()
    }
}

/// The biome that world initialisation switches to, if it switches: while no
/// biome is set, the requested one, or the character's own where none is
/// requested. A biome that is already set stays.
pub open spec fn chosen_biome(
    current_biome: CurrentBiome,
    biome_dev_request: Option<DevRequestBiome>,
    character_biome: CurrentBiome,
) -> Option<CurrentBiome> {
    if current_biome != CurrentBiome::NoBiome {
        None
    } else if biome_dev_request.is_some() && biome_dev_request.unwrap().biome()
        != CurrentBiome::NoBiome {
        Some(biome_dev_request.unwrap().biome())
    } else {
        Some(character_biome)
    }
}

/// One of `samples` says that its entity is visible.
pub open spec fn any_visible(samples: Seq<Option<bool>>) -> bool {
    exists|i: int| 0 <= i < samples.len() && samples[i] == Some(true)
}

/// Every one of `samples` says that its entity is known and hidden.
pub open spec fn all_hidden(samples: Seq<Option<bool>>) -> bool {
    forall|i: int| 0 <= i < samples.len() ==> samples[i] == Some(false)
}

/// `requests` with `count` more requests for a new chunk.
pub open spec fn with_requests(requests: Seq<RequestNewChunkSpawning>, count: nat) -> Seq<
    RequestNewChunkSpawning,
> {
    requests + Seq::new(count, |i: int| RequestNewChunkSpawning)
}

/// What world initialisation asks the lifecycle to do next.
#[derive(Clone, Copy, Debug, PartialEq, Eq, Structural)]
pub struct WorldInitialised {
    /// The phase to enter.
    pub next_state: AppState,
    /// The biome to enter, if the biome changes.
    pub next_biome: Option<CurrentBiome>,
}

/// The systems that start the world and keep its window of chunks rolling.
pub struct WorldPlugin;

impl WorldPlugin {
    /// Initialises the world: picks the biome while none is set, restarts
    /// the random stream from the fixed seed, requests the initial run of
    /// chunks and moves on to the playing phase.
    pub fn init_world(
        biome_dev_request: Option<DevRequestBiome>,
        chunk_generation_requester: &mut Events<RequestNewChunkSpawning>,
        map: &mut WorldMap,
        current_biome: CurrentBiome,
        character_biome: CurrentBiome,
    ) -> (initialised: WorldInitialised)
        ensures
            initialised.next_state == AppState::Playing,
            initialised.next_biome == chosen_biome(
                current_biome,
                biome_dev_request,
                character_biome,
            ),
            final(map).rng() == seeded_state(MAP_SEED),
            final(map).chunks() == old(map).chunks(),
            final(map).obstacles() == old(map).obstacles(),
            final(chunk_generation_requester)@ == with_requests(
                old(chunk_generation_requester)@,
                INITIAL_CHUNKS as nat,
            ),
    {
        let next_biome = match current_biome {
            CurrentBiome::NoBiome => {
                match biome_dev_request {
                    Some(request) => {
                        match request.get() {
                            CurrentBiome::NoBiome => Some(character_biome),
                            biome => Some(biome),
                        }
                    },
                    None => Some(character_biome),
                }
            },
            _ => None,
        };
        map.reseed(MAP_SEED);
        let mut sent: usize = 0;
        proof {
            assert(chunk_generation_requester@ =~= with_requests(
                old(chunk_generation_requester)@,
                0,
            ));
        }
        while sent < INITIAL_CHUNKS
            invariant
                sent <= INITIAL_CHUNKS,
                chunk_generation_requester@ == with_requests(
                    old(chunk_generation_requester)@,
                    sent as nat,
                ),
            decreases INITIAL_CHUNKS - sent,
        {
            chunk_generation_requester.send(RequestNewChunkSpawning);
            proof {
                assert(chunk_generation_requester@ =~= with_requests(
                    old(chunk_generation_requester)@,
                    (sent + 1) as nat,
                ));
            }
            sent = sent + 1;
        }
        WorldInitialised { next_state: AppState::Playing, next_biome }
    }

    /// Keeps the window of chunks rolling. `back_visibility` holds, for each
    /// entity of the newest chunk, whether the renderer shows it, and
    /// `front_visibility` the same for the oldest chunk; an entity that the
    /// renderer does not know has no value.
    ///
    /// A new chunk is requested if an entity of the newest chunk is visible.
    /// The despawn of the oldest chunk is requested if every one of its
    /// entities is known to be hidden. Neither is requested while there is no
    /// chunk, and at most one request of each kind is sent.
    pub fn check_chunk_visibilities(
        new_chunk_spawning_requester: &mut Events<RequestNewChunkSpawning>,
        old_chunk_despawning_requester: &mut Events<RequestOldChunkDespawning>,
        map: &WorldMap,
        back_visibility: &Vec<Option<bool>>,
        front_visibility: &Vec<Option<bool>>,
    )
        ensures
            final(new_chunk_spawning_requester)@ == (if map.chunks().len() > 0 && any_visible(
                back_visibility@,
            ) {
                old(new_chunk_spawning_requester)@.push(RequestNewChunkSpawning)
            } else {
                old(new_chunk_spawning_requester)@
            }),
            final(old_chunk_despawning_requester)@ == (if map.chunks().len() > 0 && all_hidden(
                front_visibility@,
            ) {
                old(old_chunk_despawning_requester)@.push(RequestOldChunkDespawning)
            } else {
                old(old_chunk_despawning_requester)@
            }),
            final(new_chunk_spawning_requester)@.len() <= old(new_chunk_spawning_requester)@.len()
                + 1,
            final(old_chunk_despawning_requester)@.len() <= old(
                old_chunk_despawning_requester,
            )@.len() + 1,
    {
        if map.len() == 0 {
            return ;
        }
        if is_any_visible(back_visibility) {
            new_chunk_spawning_requester.send(RequestNewChunkSpawning);
        }
        if is_all_hidden(front_visibility) {
            old_chunk_despawning_requester.send(RequestOldChunkDespawning);
        }
    }
}

/// Whether one of `samples` says that its entity is visible.
pub fn is_any_visible(samples: &Vec<Option<bool>>) -> (visible: bool)
    ensures
        visible == any_visible(samples@),
{
    let mut index: usize = 0;
    while index < samples.len()
        invariant
            index <= samples.len(),
            forall|i: int| 0 <= i < index ==> samples@[i] != Some(true),
        decreases samples.len() - index,
    {
        match samples[index] {
            Some(true) => {
                return true;
            },
            _ => {},
        }
        index = index + 1;
    }
    false
}

/// Whether every one of `samples` says that its entity is known and hidden.
pub fn is_all_hidden(samples: &Vec<Option<bool>>) -> (hidden: bool)
    ensures
        hidden == all_hidden(samples@),
{
    let mut index: usize = 0;
    while index < samples.len()
        invariant
            index <= samples.len(),
            forall|i: int| 0 <= i < index ==> samples@[i] == Some(false),
        decreases samples.len() - index,
    {
        match samples[index] {
            Some(false) => {},
            _ => {
                return false;
            },
        }
        index = index + 1;
    }
    true
}

} // verus!
