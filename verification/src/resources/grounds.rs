//! The ground tiles' models.

use crate::constants::{MAP_GAMEPLAY_MAX_Z, MAP_GAMEPLAY_MIN_Z};
use vstd::prelude::*;

verus! {

/// Model of a ground tile: one of two colour families, each at full
/// brightness or dimmed.
#[derive(Clone, Copy, Debug, PartialEq, Eq, Structural)]
pub enum GroundModel {
    LightCube,
    LightCubeDimmed,
    DarkCube,
    DarkCubeDimmed,
}

/// Lane `z` belongs to the band the player can reach.
pub open spec fn in_gameplay_band(z: int) -> bool {
    MAP_GAMEPLAY_MIN_Z <= z <= MAP_GAMEPLAY_MAX_Z
}

/// Whether lane `z` belongs to the band the player can reach.
pub fn is_gameplay_lane(z: i32) -> (inside: bool)
    ensures
        inside == in_gameplay_band(z as int),
{
    MAP_GAMEPLAY_MIN_Z <= z && z <= MAP_GAMEPLAY_MAX_Z
}

impl GroundModel {
    /// The model of the tile on cell `(x, z)`: chunks alternate between the
    /// light family on even coordinates and the dark one on odd coordinates,
    /// and tiles outside the gameplay band are dimmed.
    pub open spec fn spec_for_cell(x: int, z: int) -> GroundModel {
        if x % 2 == 0 {
            if in_gameplay_band(z) {
                GroundModel::LightCube
            } else {
                GroundModel::LightCubeDimmed
            }
        } else {
            if in_gameplay_band(z) {
                GroundModel::DarkCube
            } else {
                GroundModel::DarkCubeDimmed
            }
        }
    }

    /// The model of the tile on cell `(x, z)`.
    pub fn for_cell(x: i32, z: i32) -> (model: GroundModel)
        ensures
            model == GroundModel::spec_for_cell(x as int, z as int),
    {
        if x % 2 == 0 {
            if is_gameplay_lane(z) {
                GroundModel::LightCube
            } else {
                GroundModel::LightCubeDimmed
            }
        } else {
            if is_gameplay_lane(z) {
                GroundModel::DarkCube
            } else {
                GroundModel::DarkCubeDimmed
            }
        }
    }
}

} // verus!
