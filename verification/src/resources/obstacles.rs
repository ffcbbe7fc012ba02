//! The obstacles' models.

use crate::random::{rand32_range, RandomStream};
use vstd::prelude::*;

verus! {

/// Model of an obstacle.
#[derive(Clone, Copy, Debug, PartialEq, Eq, Structural)]
pub enum ObstacleModel {
    SmallTree,
    MediumTree,
    LargeTree,
    XlTree,
    Boulder,
    Stump,
}

/// The four tree models.
pub struct TreeObstacles;

impl TreeObstacles {
    /// The tree that a draw of `index` selects: the first three values pick
    /// the small, medium and large tree, every other value the largest.
    pub open spec fn spec_from_index(index: u32) -> ObstacleModel {
        if index == 0 {
            ObstacleModel::SmallTree
        } else if index == 1 {
            ObstacleModel::MediumTree
        } else if index == 2 {
            ObstacleModel::LargeTree
        } else {
            ObstacleModel::XlTree
        }
    }

    /// The tree that a draw of `index` selects.
    #[verifier::when_used_as_spec(spec_from_index)]
    pub fn from_index(index: u32) -> (model: ObstacleModel)
        ensures
            model == TreeObstacles::spec_from_index(index),
    {
        match index {
            0 => ObstacleModel::SmallTree,
            1 => ObstacleModel::MediumTree,
            2 => ObstacleModel::LargeTree,
            _ => ObstacleModel::XlTree,
        }
    }

    /// The tree selected by the next draw from a stream at `rng`, and the
    /// stream's state after the draw.
    pub open spec fn random_tree(rng: (u64, u64)) -> (ObstacleModel, (u64, u64)) {
        let drawn = rand32_range(rng, 0, 4);
        (TreeObstacles::spec_from_index(drawn.0), drawn.1)
    }

    /// Draws one of the four trees, each with the same chance.
    pub fn get_random(random_generator: &mut RandomStream) -> (model: ObstacleModel)
        ensures
            (model, final(random_generator)@) == TreeObstacles::random_tree(
                old(random_generator)@,
            ),
    {
        let index = random_generator.rand_range(0, 4);
        TreeObstacles::from_index(index)
    }
}

} // verus!
