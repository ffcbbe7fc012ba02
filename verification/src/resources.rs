//! The models that the world is built from, and the phases of loading them.

use crate::states::AppState;
use vstd::prelude::*;

pub mod grounds;
pub mod obstacles;

verus! {

/// Phase of model initialisation.
#[derive(Clone, Copy, Debug, PartialEq, Eq, Structural)]
pub enum InitModelsState {
    Loading,
    CalculatingMeshSizes,
    Finished,
}

impl Default for InitModelsState {
    fn default() -> (state: InitModelsState)
        ensures
            state == InitModelsState::Loading,
    {
        InitModelsState::Loading
    }
}

/// How far the loading of an asset has come.
#[derive(Clone, Copy, Debug, PartialEq, Eq, Structural)]
pub enum LoadState {
    NotLoaded,
    Loading,
    Loaded,
    Failed,
}

/// Whether the assets are ready.
#[derive(Clone, Copy, Debug, PartialEq, Eq, Structural)]
pub enum AssetsReady {
    /// An asset is still on its way.
    Waiting,
    /// Every asset is loaded.
    Ready,
    /// An asset failed to load: startup cannot go on.
    Failed,
}

/// What the load states of the assets, read in their order, say: the first
/// asset that is not loaded decides between failure and waiting, and without
/// such an asset all are ready.
pub open spec fn assets_ready(load_states: Seq<LoadState>) -> AssetsReady
    decreases load_states.len(),
{
    if load_states.len() == 0 {
        AssetsReady::Ready
    } else {
        match load_states[0] {
            LoadState::Loaded => assets_ready(load_states.skip(1)),
            LoadState::Failed => AssetsReady::Failed,
            _ => AssetsReady::Waiting,
        }
    }
}

/// The systems that load the models.
pub struct ResourcePlugin;

impl ResourcePlugin {
    /// Checks the load states of the assets, in their order.
    pub fn check_assets_ready(load_states: &Vec<LoadState>) -> (ready: AssetsReady)
        ensures
            ready == assets_ready(load_states@),
    {
        let mut index: usize = 0;
        proof {
            assert(load_states@.skip(0) =~= load_states@);
        }
        while index < load_states.len()
            invariant
                index <= load_states.len(),
                assets_ready(load_states@) == assets_ready(load_states@.skip(index as int)),
            decreases load_states.len() - index,
        {
            proof {
                assert(load_states@.skip(index as int).skip(1) =~= load_states@.skip(index + 1));
            }
            match load_states[index] {
                LoadState::Loaded => {},
                LoadState::Failed => {
                    return AssetsReady::Failed;
                },
                _ => {
                    return AssetsReady::Waiting;
                },
            }
            index = index + 1;
        }
        AssetsReady::Ready
    }

    /// Ends model initialisation: the models are finished, and the
    /// application moves on to the phase after `app_state`.
    pub fn finish_mesh_size_calculations(app_state: AppState) -> (next: (InitModelsState, AppState))
        ensures
            next == (InitModelsState::Finished, app_state.spec_next()),
    {
        (InitModelsState::Finished, app_state.next())
    }
}

} // verus!
