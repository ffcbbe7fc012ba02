use crossy_road::commands::{Commands, Ground, Obstacle};
use crossy_road::events::{
    DevRequestBiome, Events, RequestNewChunkSpawning, RequestOldChunkDespawning,
};
use crossy_road::lifecycle::LifecyclePlugin;
use crossy_road::random::RandomStream;
use crossy_road::resources::grounds::GroundModel;
use crossy_road::resources::obstacles::ObstacleModel;
use crossy_road::resources::LoadState::{Failed, Loaded, Loading, NotLoaded};
use crossy_road::resources::{AssetsReady, InitModelsState, ResourcePlugin};
use crossy_road::states::{AppState, CurrentBiome};
use crossy_road::world::biomes::crossy_valley::CrossyValleyBiome;
use crossy_road::world::biomes::StandardBiomeSystems;
use crossy_road::world::{is_all_hidden, is_any_visible, Chunk, WorldMap, WorldPlugin};

fn checked(
    map: &WorldMap,
    back: Vec<Option<bool>>,
    front: Vec<Option<bool>>,
) -> (usize, usize) {
    let mut spawns: Events<RequestNewChunkSpawning> = Events::new();
    let mut despawns: Events<RequestOldChunkDespawning> = Events::new();
    WorldPlugin::check_chunk_visibilities(&mut spawns, &mut despawns, map, &back, &front);
    (spawns.len(), despawns.len())
}

fn two_chunks() -> WorldMap {
    let mut map = WorldMap::new();
    map.push_chunk(Chunk { position_x: -8, entities: vec![0, 1] });
    map.push_chunk(Chunk { position_x: -7, entities: vec![2, 3] });
    map
}

#[test]
fn a_visible_newest_chunk_asks_for_growth() {
    let map = two_chunks();
    let shown = vec![Some(true), Some(true)];
    assert_eq!(checked(&map, vec![Some(false), Some(true)], shown.clone()), (1, 0));
    assert_eq!(checked(&map, vec![Some(true), None], shown.clone()), (1, 0));
    assert_eq!(checked(&map, vec![Some(false), Some(false)], shown.clone()), (0, 0));
    assert_eq!(checked(&map, vec![None, None], shown.clone()), (0, 0));
    assert_eq!(checked(&map, vec![], shown), (0, 0));
}

#[test]
fn a_hidden_oldest_chunk_asks_for_its_despawn() {
    let map = two_chunks();
    let hidden = vec![Some(false), Some(false)];
    assert_eq!(checked(&map, hidden.clone(), vec![Some(false), Some(false)]), (0, 1));
    assert_eq!(checked(&map, hidden.clone(), vec![Some(false), Some(true)]), (0, 0));
    assert_eq!(checked(&map, hidden.clone(), vec![Some(false), None]), (0, 0));
    assert_eq!(checked(&map, hidden.clone(), vec![None, None]), (0, 0));
    assert_eq!(checked(&map, hidden, vec![]), (0, 1));
}

#[test]
fn growth_and_shrinking_are_independent() {
    let map = two_chunks();
    assert_eq!(checked(&map, vec![Some(true)], vec![Some(false)]), (1, 1));
    assert_eq!(checked(&map, vec![Some(true)], vec![Some(true)]), (1, 0));
    assert_eq!(checked(&map, vec![Some(false)], vec![Some(false)]), (0, 1));
}

#[test]
fn without_chunks_nothing_is_requested() {
    let map = WorldMap::new();
    assert_eq!(checked(&map, vec![Some(true)], vec![Some(false)]), (0, 0));
    assert_eq!(checked(&map, vec![], vec![]), (0, 0));
}

#[test]
fn a_tick_adds_at_most_one_request_of_each_kind() {
    let map = two_chunks();
    let mut spawns: Events<RequestNewChunkSpawning> = Events::new();
    let mut despawns: Events<RequestOldChunkDespawning> = Events::new();
    spawns.send(RequestNewChunkSpawning);
    let back = vec![Some(true); 20];
    let front = vec![Some(false); 20];
    WorldPlugin::check_chunk_visibilities(&mut spawns, &mut despawns, &map, &back, &front);
    assert_eq!((spawns.len(), despawns.len()), (2, 1));
    WorldPlugin::check_chunk_visibilities(&mut spawns, &mut despawns, &map, &back, &front);
    assert_eq!((spawns.len(), despawns.len()), (3, 2));
}

#[test]
fn visibility_samples() {
    assert!(!is_any_visible(&vec![]));
    assert!(is_all_hidden(&vec![]));
    assert!(is_any_visible(&vec![None, Some(false), Some(true)]));
    assert!(!is_any_visible(&vec![None, Some(false)]));
    assert!(is_all_hidden(&vec![Some(false), Some(false)]));
    assert!(!is_all_hidden(&vec![Some(false), None]));
    assert!(!is_all_hidden(&vec![Some(true), Some(false)]));
}

#[test]
fn world_initialisation_reseeds_and_requests_sixteen_chunks() {
    let mut requests: Events<RequestNewChunkSpawning> = Events::new();
    let mut map = two_chunks();
    map.register_obstacle(-8, 2, 9);
    let _ = map.rand_range(0, 101);
    let initialised = WorldPlugin::init_world(
        None,
        &mut requests,
        &mut map,
        CurrentBiome::CrossyValley,
        CurrentBiome::CrossyValley,
    );
    assert_eq!(initialised.next_state, AppState::Playing);
    assert_eq!(initialised.next_biome, None);
    assert_eq!(requests.len(), 16);
    assert_eq!(map.random_generator().state(), RandomStream::new(0).state());
    assert_eq!(map.len(), 2);
    assert!(map.is_occupied(-8, 2));

    let _ = WorldPlugin::init_world(
        None,
        &mut requests,
        &mut map,
        CurrentBiome::CrossyValley,
        CurrentBiome::CrossyValley,
    );
    assert_eq!(requests.len(), 32);
}

#[test]
fn world_initialisation_picks_the_biome_while_none_is_set() {
    let pick = |current, request: Option<CurrentBiome>, character| {
        let mut requests: Events<RequestNewChunkSpawning> = Events::new();
        let mut map = WorldMap::new();
        WorldPlugin::init_world(
            request.map(DevRequestBiome::new),
            &mut requests,
            &mut map,
            current,
            character,
        )
        .next_biome
    };
    let valley = CurrentBiome::CrossyValley;
    let none = CurrentBiome::NoBiome;
    let default = CurrentBiome::Default;
    assert_eq!(pick(none, None, valley), Some(valley));
    assert_eq!(pick(none, Some(default), valley), Some(default));
    assert_eq!(pick(none, Some(none), valley), Some(valley));
    assert_eq!(pick(none, Some(valley), default), Some(valley));
    assert_eq!(pick(valley, Some(default), default), None);
    assert_eq!(pick(default, None, valley), None);
}

#[test]
fn a_requested_biome_is_kept() {
    assert_eq!(DevRequestBiome::new(CurrentBiome::Default).get(), CurrentBiome::Default);
    assert_eq!(DevRequestBiome::new(CurrentBiome::NoBiome).get(), CurrentBiome::NoBiome);
    assert_eq!(
        DevRequestBiome::new(CurrentBiome::CrossyValley).get(),
        CurrentBiome::CrossyValley
    );
}

#[test]
fn event_queues_fill_and_clear() {
    let mut events: Events<u8> = Events::new();
    assert!(events.is_empty());
    events.send(1);
    events.send(2);
    assert_eq!(events.len(), 2);
    assert!(!events.is_empty());
    events.clear();
    assert_eq!(events.len(), 0);
    assert!(events.is_empty());
}

#[test]
fn commands_queue_in_order_and_number_entities() {
    let mut commands = Commands::new();
    assert_eq!(commands.spare_entities(), u64::MAX);
    assert_eq!(commands.spawn_ground(GroundModel::LightCube, 1, 2), 0);
    assert_eq!(commands.spawn_obstacle(ObstacleModel::Boulder, 3, 4, 1), 1);
    assert_eq!(commands.spawn_ground(GroundModel::DarkCubeDimmed, 5, 6), 2);
    commands.despawn(1);
    commands.despawn(0);
    assert_eq!(
        commands.grounds(),
        &vec![
            Ground { entity: 0, x: 1, z: 2, model: GroundModel::LightCube },
            Ground { entity: 2, x: 5, z: 6, model: GroundModel::DarkCubeDimmed },
        ]
    );
    assert_eq!(
        commands.obstacles(),
        &vec![Obstacle { entity: 1, x: 3, z: 4, model: ObstacleModel::Boulder, quarter_turns: 1 }]
    );
    assert_eq!(commands.despawned(), &vec![1, 0]);
    commands.clear();
    assert!(commands.grounds().is_empty());
    assert!(commands.obstacles().is_empty());
    assert!(commands.despawned().is_empty());
    assert_eq!(commands.spawn_ground(GroundModel::LightCube, 0, 0), 3);
    assert_eq!(commands.spare_entities(), u64::MAX - 4);
}

#[test]
fn the_lifecycle_restarts_the_level() {
    assert_eq!(
        LifecyclePlugin::handle_none_biome(CurrentBiome::NoBiome, AppState::Playing),
        Some(AppState::Clearing)
    );
    assert_eq!(
        LifecyclePlugin::handle_none_biome(CurrentBiome::NoBiome, AppState::InitialisingWorld),
        None
    );
    assert_eq!(
        LifecyclePlugin::handle_none_biome(CurrentBiome::CrossyValley, AppState::Playing),
        None
    );
    assert_eq!(LifecyclePlugin::clear(AppState::Clearing), Some(AppState::InitialisingWorld));
    assert_eq!(LifecyclePlugin::clear(AppState::Playing), None);
    assert_eq!(LifecyclePlugin::clear(AppState::LoadingModels), None);
    assert_eq!(AppState::default(), AppState::LoadingModels);
    assert_eq!(CurrentBiome::default(), CurrentBiome::NoBiome);
    assert_eq!(CurrentBiome::CrossyValley.to_string(), "Crossy Valley");
    assert_eq!(CurrentBiome::Default.to_string(), "Default");
    assert_eq!(CurrentBiome::NoBiome.to_string(), "None");
}

#[test]
fn assets_are_ready_when_all_are_loaded() {
    assert_eq!(ResourcePlugin::check_assets_ready(&vec![]), AssetsReady::Ready);
    assert_eq!(ResourcePlugin::check_assets_ready(&vec![Loaded, Loaded]), AssetsReady::Ready);
    assert_eq!(
        ResourcePlugin::check_assets_ready(&vec![Loaded, Loading, Failed]),
        AssetsReady::Waiting
    );
    assert_eq!(
        ResourcePlugin::check_assets_ready(&vec![Loaded, NotLoaded]),
        AssetsReady::Waiting
    );
    assert_eq!(
        ResourcePlugin::check_assets_ready(&vec![Loaded, Failed, Loading]),
        AssetsReady::Failed
    );
    assert_eq!(ResourcePlugin::check_assets_ready(&vec![Failed]), AssetsReady::Failed);
    assert_eq!(InitModelsState::default(), InitModelsState::Loading);
    assert_eq!(
        ResourcePlugin::finish_mesh_size_calculations(AppState::LoadingModels),
        (InitModelsState::Finished, AppState::InsertingCurrentCharacter)
    );
}

#[test]
fn the_window_of_chunks_rolls_and_stays_contiguous() {
    let mut commands = Commands::new();
    let mut spawns: Events<RequestNewChunkSpawning> = Events::new();
    let mut despawns: Events<RequestOldChunkDespawning> = Events::new();
    let mut biome_data = CrossyValleyBiome::enter_biome();
    let mut map = WorldMap::new();
    let _ = WorldPlugin::init_world(
        None,
        &mut spawns,
        &mut map,
        CurrentBiome::NoBiome,
        CurrentBiome::CrossyValley,
    );
    CrossyValleyBiome::spawn_new_chunk(&mut commands, &mut spawns, &mut biome_data, &mut map);
    let mut live: Vec<Obstacle> = commands.obstacles().clone();
    commands.clear();

    for tick in 0..200 {
        // The camera follows a player who advances one chunk every fourth tick.
        let advancing = tick % 4 == 0;
        let back = vec![Some(advancing); 20];
        let front = vec![Some(!advancing); 20];
        WorldPlugin::check_chunk_visibilities(&mut spawns, &mut despawns, &map, &back, &front);
        assert!(spawns.len() <= 1);
        assert!(despawns.len() <= 1);

        CrossyValleyBiome::spawn_new_chunk(&mut commands, &mut spawns, &mut biome_data, &mut map);
        StandardBiomeSystems::despawn_old_chunk(&mut commands, &mut despawns, &mut map);
        assert_eq!(spawns.len(), 0);
        assert_eq!(despawns.len(), 0);

        live.extend(commands.obstacles().iter().copied());
        let despawned = commands.despawned().clone();
        live.retain(|obstacle| !despawned.contains(&obstacle.entity));
        commands.clear();

        if map.is_empty() {
            continue;
        }
        let first = map.front().unwrap().position_x;
        let last = map.back().unwrap().position_x;
        assert_eq!((last - first + 1) as usize, map.len());
        for i in 0..map.len() {
            assert_eq!(map.chunk(i).unwrap().position_x, first + i as i32);
        }
        for x in (first - 3)..(last + 3) {
            for z in -10..10 {
                let registered = live.iter().find(|o| o.x == x && o.z == z);
                assert_eq!(map.obstacle_at(x, z), registered.map(|o| o.entity));
                if map.is_occupied(x, z) {
                    assert!(first <= x && x <= last);
                    assert_ne!(z, 0);
                }
            }
        }
    }
    assert!(map.back().unwrap().position_x > 7);
}
