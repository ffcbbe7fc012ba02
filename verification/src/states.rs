//! Lifecycle phases of the application and the biome the world is in.

use vstd::prelude::*;

verus! {

/// Phase of the application's lifecycle.
#[derive(Clone, Copy, Debug, Hash, PartialEq, Eq, Structural)]
pub enum AppState {
    LoadingModels,
    InsertingCurrentCharacter,
    InitialisingWorld,
    Playing,
    /// Entities are destroyed here so that the level can restart.
    Clearing,
}

impl AppState {
    /// The phase that follows `self`: a straight line from loading to
    /// clearing, and from clearing back to world initialisation.
    pub open spec fn spec_next(&self) -> AppState {
        match self {
            AppState::LoadingModels => AppState::InsertingCurrentCharacter,
            AppState::InsertingCurrentCharacter => AppState::InitialisingWorld,
            AppState::InitialisingWorld => AppState::Playing,
            AppState::Playing => AppState::Clearing,
            AppState::Clearing => AppState::InitialisingWorld,
        }
    }

    #[verifier::when_used_as_spec(spec_next)]
    pub fn next(&self) -> (r: AppState)
        ensures
            r == self.spec_next(),
    {
        match self {
            AppState::LoadingModels => AppState::InsertingCurrentCharacter,
            AppState::InsertingCurrentCharacter => AppState::InitialisingWorld,
            AppState::InitialisingWorld => AppState::Playing,
            AppState::Playing => AppState::Clearing,
            AppState::Clearing => AppState::InitialisingWorld,
        }
    }
}

impl Default for AppState {
    fn default() -> (r: AppState)
        ensures
            r == AppState::LoadingModels,
    {
        AppState::LoadingModels
    }
}

/// Biome the world is generated in.
#[derive(Clone, Copy, Debug, Hash, PartialEq, Eq, Structural)]
pub enum CurrentBiome {
    /// Bare ground without obstacles, for development.
    Default,
    CrossyValley,
    /// No biome; entering it while playing restarts the level.
    NoBiome,
}

impl Default for CurrentBiome {
    fn default() -> (r: CurrentBiome)
        ensures
            r == CurrentBiome::NoBiome,
    {
        CurrentBiome::NoBiome
    }
}

impl CurrentBiome {
    /// Display name of the biome.
    pub open spec fn spec_name(&self) -> Seq<char> {
        match self {
            CurrentBiome::Default => "Default"@,
            CurrentBiome::CrossyValley => "Crossy Valley"@,
            CurrentBiome::NoBiome => "None"@,
        }
    }

    /// The biome's display name as an owned string.
    pub fn to_string(&self) -> (r: String)
        ensures
            r@ == self.spec_name(),
    {
        match self {
            CurrentBiome::Default => "Default".to_owned(),
            CurrentBiome::CrossyValley => "Crossy Valley".to_owned(),
            CurrentBiome::NoBiome => "None".to_owned(),
        }
    }

    /// Every biome paired with its display name, in declaration order.
    pub fn all_variant_names() -> (r: Vec<(CurrentBiome, String)>)
        ensures
            r@.len() == 3,
            r@[0].0 == CurrentBiome::Default,
            r@[1].0 == CurrentBiome::CrossyValley,
            r@[2].0 == CurrentBiome::NoBiome,
            forall|i: int| 0 <= i < 3 ==> (#[trigger] r@[i]).1@ == r@[i].0.spec_name(),
    {
        let mut names: Vec<(CurrentBiome, String)> = Vec::new();
        names.push((CurrentBiome::Default, CurrentBiome::Default.to_string()));
        names.push((CurrentBiome::CrossyValley, CurrentBiome::CrossyValley.to_string()));
        names.push((CurrentBiome::NoBiome, CurrentBiome::NoBiome.to_string()));
        names
    }
}

} // verus!
