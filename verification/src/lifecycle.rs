//! The transitions that restart a level.

use crate::states::{AppState, CurrentBiome};
use vstd::prelude::*;

verus! {

/// The systems that restart a level.
pub struct LifecyclePlugin;

impl LifecyclePlugin {
    /// Runs when biome `entered` is entered: leaving the world without a
    /// biome while playing starts the clearing phase. Returns the phase to
    /// enter, if any.
    pub fn handle_none_biome(entered: CurrentBiome, app_state: AppState) -> (next: Option<AppState>)
        ensures
            next == (if entered == CurrentBiome::NoBiome && app_state == AppState::Playing {
                Some(AppState::Clearing)
            } else {
                None
            }),
    {
        match (entered, app_state) {
            (CurrentBiome::NoBiome, AppState::Playing) => Some(AppState::Clearing),
            _ => None,
        }
    }

    /// Runs when phase `entered` is entered: once the clearing phase has been
    /// reached, the world is initialised again. Returns the phase to enter,
    /// if any.
    pub fn clear(entered: AppState) -> (next: Option<AppState>)
        ensures
            next == (if entered == AppState::Clearing {
                Some(AppState::InitialisingWorld)
            } else {
                None
            }),
    {
        match entered {
            AppState::Clearing => Some(AppState::InitialisingWorld),
            _ => None,
        }
    }
}

} // verus!
