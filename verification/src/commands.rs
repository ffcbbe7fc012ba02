//! Spawn and despawn commands, queued by the systems for the host to carry
//! out.
//!
//! An entity is known by a handle: a number that the command queue hands out
//! when the entity's spawn is queued, counting up from zero.

use crate::resources::grounds::GroundModel;
use crate::resources::obstacles::ObstacleModel;
use vstd::prelude::*;

verus! {

/// A ground tile to be spawned: a fixed unit cube that fills cell `(x, z)`.
#[derive(Clone, Copy, Debug, PartialEq, Eq, Structural)]
pub struct Ground {
    pub entity: u64,
    pub x: i32,
    pub z: i32,
    pub model: GroundModel,
}

/// An obstacle to be spawned on cell `(x, z)`, turned about the vertical axis
/// by the given number of quarter turns.
#[derive(Clone, Copy, Debug, PartialEq, Eq, Structural)]
pub struct Obstacle {
    pub entity: u64,
    pub x: i32,
    pub z: i32,
    pub model: ObstacleModel,
    pub quarter_turns: u32,
}

/// The queue of pending commands.
pub struct Commands {
    next_entity: u64,
    grounds: Vec<Ground>,
    obstacles: Vec<Obstacle>,
    despawned: Vec<u64>,
}

/// What a [`Commands`] queue holds, as mathematical values.
#[verifier::ext_equal]
pub struct CommandsView {
    /// Number of handles handed out so far, which is the next handle.
    pub spawned: nat,
    /// Ground tiles to spawn, in the order they were queued.
    pub grounds: Seq<Ground>,
    /// Obstacles to spawn, in the order they were queued.
    pub obstacles: Seq<Obstacle>,
    /// Entities to despawn, in the order they were queued.
    pub despawned: Seq<u64>,
}

impl View for Commands {
    type V = CommandsView;

    closed spec fn view(&self) -> CommandsView {
        CommandsView {
            spawned: self.next_entity as nat,
            grounds: self.grounds@,
            obstacles: self.obstacles@,
            despawned: self.despawned@,
        }
    }
}

impl Commands {
    /// An empty queue that has handed out no handle yet.
    pub fn new() -> (commands: Commands)
        ensures
            commands@ == (CommandsView {
                spawned: 0,
                grounds: Seq::empty(),
                obstacles: Seq::empty(),
                despawned: Seq::empty(),
            }),
    {
        Commands {
            next_entity: 0,
            grounds: Vec::new(),
            obstacles: Vec::new(),
            despawned: Vec::new(),
        }
    }

    /// Number of handles that can still be handed out.
    pub fn spare_entities(&self) -> (spare: u64)
        ensures
            spare == u64::MAX - self@.spawned,
    {
        u64::MAX - self.next_entity
    }

    /// Queues the spawn of a ground tile on cell `(x, z)` and returns the
    /// tile's handle.
    pub fn spawn_ground(&mut self, model: GroundModel, x: i32, z: i32) -> (entity: u64)
        requires
            old(self)@.spawned < u64::MAX,
        ensures
            entity == old(self)@.spawned,
            final(self)@ == (CommandsView {
                spawned: old(self)@.spawned + 1,
                grounds: old(self)@.grounds.push(Ground { entity, x, z, model }),
                ..old(self)@
            }),
    {
        let entity = self.next_entity;
        self.next_entity = entity + 1;
        self.grounds.push(Ground { entity, x, z, model });
        entity
    }

    /// Queues the spawn of an obstacle on cell `(x, z)` and returns the
    /// obstacle's handle.
    pub fn spawn_obstacle(
        &mut self,
        model: ObstacleModel,
        x: i32,
        z: i32,
        quarter_turns: u32,
    ) -> (entity: u64)
        requires
            old(self)@.spawned < u64::MAX,
        ensures
            entity == old(self)@.spawned,
            final(self)@ == (CommandsView {
                spawned: old(self)@.spawned + 1,
                obstacles: old(self)@.obstacles.push(
                    Obstacle { entity, x, z, model, quarter_turns },
                ),
                ..old(self)@
            }),
    {
        let entity = self.next_entity;
        self.next_entity = entity + 1;
        self.obstacles.push(Obstacle { entity, x, z, model, quarter_turns });
        entity
    }

    /// The ground tiles waiting to be spawned.
    pub fn grounds(&self) -> (grounds: &Vec<Ground>)
        ensures
            grounds@ == self@.grounds,
    {
        &self.grounds
    }

    /// The obstacles waiting to be spawned.
    pub fn obstacles(&self) -> (obstacles: &Vec<Obstacle>)
        ensures
            obstacles@ == self@.obstacles,
    {
        &self.obstacles
    }

    /// The entities waiting to be despawned.
    pub fn despawned(&self) -> (despawned: &Vec<u64>)
        ensures
            despawned@ == self@.despawned,
    {
        &self.despawned
    }

    /// Empties the three queues, once the host has carried the commands out.
    /// Handles go on counting from where they were.
    pub fn clear(&mut self)
        ensures
            final(self)@ == (CommandsView {
                spawned: old(self)@.spawned,
                grounds: Seq::empty(),
                obstacles: Seq::empty(),
                despawned: Seq::empty(),
            }),
    {
        self.grounds.clear();
        self.obstacles.clear();
        self.despawned.clear();
    }

    /// Queues the despawn of `entity`.
    pub fn despawn(&mut self, entity: u64)
        ensures
            final(self)@ == (CommandsView {
                despawned: old(self)@.despawned.push(entity),
                ..old(self)@
            }),
    {
        self.despawned.push(entity);
    }
}

} // verus!
