//! The requests that systems send each other, and the queue that carries
//! them from the tick they are sent in to the system that serves them.

use crate::states::CurrentBiome;
use vstd::prelude::*;

verus! {

/// Asks for the world to be initialised in a chosen biome.
#[derive(Clone, Copy, Debug, PartialEq, Eq, Structural)]
pub struct DevRequestBiome(CurrentBiome);

impl DevRequestBiome {
    /// The biome that the request asks for.
    pub closed spec fn biome(&self) -> CurrentBiome {
        self.0
    }

    pub fn new(biome: CurrentBiome) -> (request: DevRequestBiome)
        ensures
            request.biome() == biome,
    {
        DevRequestBiome(biome)
    }

    #[verifier::when_used_as_spec(biome)]
    pub fn get(&self) -> (biome: CurrentBiome)
        ensures
            biome == self.biome(),
    {
        self.0
    }
}

/// Asks for one more chunk behind the newest one.
#[derive(Clone, Copy, Debug, PartialEq, Eq, Structural)]
pub struct RequestNewChunkSpawning;

/// Asks for the oldest chunk to be despawned.
#[derive(Clone, Copy, Debug, PartialEq, Eq, Structural)]
pub struct RequestOldChunkDespawning;

/// Requests of one kind, waiting to be served. Systems append while a tick
/// runs; the serving system handles all of them at once and clears the queue.
pub struct Events<E> {
    pending: Vec<E>,
}

impl<E> View for Events<E> {
    type V = Seq<E>;

    closed spec fn view(&self) -> Seq<E> {
        self.pending@
    }
}

impl<E> Events<E> {
    /// A queue without requests.
    pub fn new() -> (events: Events<E>)
        ensures
            events@ == Seq::<E>::empty(),
    {
        Events { pending: Vec::new() }
    }

    /// Appends `event` to the queue.
    pub fn send(&mut self, event: E)
        ensures
            final(self)@ == old(self)@.push(event),
    {
        self.pending.push(event);
    }

    /// Number of waiting requests.
    pub fn len(&self) -> (count: usize)
        ensures
            count == self@.len(),
    {
        self.pending.len()
    }

    /// Whether no request is waiting.
    pub fn is_empty(&self) -> (empty: bool)
        ensures
            empty == (self@.len() == 0),
    {
        self.pending.len() == 0
    }

    /// Drops every waiting request.
    pub fn clear(&mut self)
        ensures
            final(self)@ == Seq::<E>::empty(),
    {
        self.pending.clear();
    }
}

} // verus!
