//! Simulation core of an endless lane-crossing game: the streamed lane grid,
//! its terrain generators, and the player's jump state machine.
//!
//! Everything here works on plain values. Rendering, physics and input
//! devices stay with the host, which feeds each system what it sampled this
//! tick and carries out the commands the systems queue.

pub mod commands;
pub mod constants;
pub mod events;
pub mod lifecycle;
pub mod player;
pub mod random;
pub mod resources;
pub mod states;
pub mod world;
