//! The regions of the valley.

pub mod forest;
pub mod spawn_point;
