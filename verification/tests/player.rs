use crossy_road::constants::{MAP_GAMEPLAY_MAX_Z, MAP_GAMEPLAY_MIN_Z, PLAYER_MAX_JUMP_QUEUE};
use crossy_road::player::PlayerJumpDirection::{Back, Forward, Left, Right};
use crossy_road::player::{
    end_rotation, flatten_player, handle_move_keys, init_player_move, move_player, Facing,
    FlattenAction, Jump, MoveKeys, Player, PlayerInput, PlayerJumpDirection, PlayerOutput,
    PlayerPlugin,
};
use crossy_road::states::AppState;
use crossy_road::world::{Chunk, WorldMap};

const NO_KEYS: MoveKeys = MoveKeys { forward: false, back: false, left: false, right: false };
const FORWARD: MoveKeys = MoveKeys { forward: true, ..NO_KEYS };
const BACK: MoveKeys = MoveKeys { back: true, ..NO_KEYS };
const LEFT: MoveKeys = MoveKeys { left: true, ..NO_KEYS };
const RIGHT: MoveKeys = MoveKeys { right: true, ..NO_KEYS };
const AT_REST: Facing = Facing { quarter: Some(0), near_rest: true };

fn queue(player: &Player) -> Vec<PlayerJumpDirection> {
    (0..player.queue_len()).map(|i| player.queued(i).unwrap()).collect()
}

fn grounded_player() -> Player {
    let mut player = Player::new();
    assert!(!move_player(&mut player, false));
    assert!(move_player(&mut player, true));
    assert!(player.is_grounded());
    player
}

fn map_around_spawn() -> WorldMap {
    let mut map = WorldMap::new();
    for x in -8..8 {
        map.push_chunk(Chunk { position_x: x, entities: Vec::new() });
    }
    map
}

fn input(released: MoveKeys, collided: bool) -> PlayerInput {
    PlayerInput {
        collided,
        released,
        cell_x: 0,
        cell_z: 0,
        facing: AT_REST,
        animation_complete: true,
        key_held: false,
        flattened: false,
        neutral: true,
    }
}

#[test]
fn a_player_spawns_airborne_with_nothing_queued() {
    let player = Player::new();
    assert_eq!(player.queue_len(), 0);
    assert!(!player.is_grounded());
    assert!(!player.is_initial_jump_made());
    assert_eq!(player.queued(0), None);
    let player = Player::default();
    assert_eq!(player.queue_len(), 0);
    assert!(!player.is_grounded());
    assert_eq!(PlayerJumpDirection::default(), Forward);
}

#[test]
fn the_jump_queue_holds_at_most_two() {
    let mut player = Player::new();
    handle_move_keys(&mut player, FORWARD, 0);
    assert_eq!(queue(&player), vec![Forward]);
    handle_move_keys(&mut player, LEFT, 0);
    assert_eq!(queue(&player), vec![Forward, Left]);
    handle_move_keys(&mut player, RIGHT, 0);
    assert_eq!(queue(&player), vec![Forward, Left]);
    handle_move_keys(&mut player, BACK, 0);
    handle_move_keys(&mut player, FORWARD, 0);
    assert_eq!(queue(&player), vec![Forward, Left]);
    assert_eq!(player.queue_len(), PLAYER_MAX_JUMP_QUEUE);
    assert_eq!(player.queued(2), None);
}

#[test]
fn released_keys_are_captured_in_order_of_precedence() {
    let mut player = Player::new();
    handle_move_keys(&mut player, NO_KEYS, 0);
    assert_eq!(queue(&player), vec![]);
    let all = MoveKeys { forward: true, back: true, left: true, right: true };
    handle_move_keys(&mut player, all, 0);
    assert_eq!(queue(&player), vec![Forward]);

    let mut player = Player::new();
    handle_move_keys(&mut player, MoveKeys { forward: false, ..all }, 0);
    assert_eq!(queue(&player), vec![Back]);

    let mut player = Player::new();
    handle_move_keys(&mut player, MoveKeys { left: true, right: true, ..NO_KEYS }, 0);
    assert_eq!(queue(&player), vec![Left]);

    let mut player = Player::new();
    handle_move_keys(&mut player, RIGHT, 0);
    assert_eq!(queue(&player), vec![Right]);

    // A rejected lateral jump is dropped: the keys behind it are not looked at.
    let mut player = Player::new();
    handle_move_keys(
        &mut player,
        MoveKeys { left: true, right: true, ..NO_KEYS },
        MAP_GAMEPLAY_MIN_Z,
    );
    assert_eq!(queue(&player), vec![]);
}

#[test]
fn a_lateral_jump_out_of_the_band_is_rejected() {
    let mut player = Player::new();
    handle_move_keys(&mut player, LEFT, MAP_GAMEPLAY_MIN_Z);
    assert_eq!(queue(&player), vec![]);
    handle_move_keys(&mut player, RIGHT, MAP_GAMEPLAY_MAX_Z);
    assert_eq!(queue(&player), vec![]);
    handle_move_keys(&mut player, LEFT, MAP_GAMEPLAY_MIN_Z - 3);
    handle_move_keys(&mut player, RIGHT, MAP_GAMEPLAY_MAX_Z + 3);
    handle_move_keys(&mut player, LEFT, i32::MIN);
    handle_move_keys(&mut player, RIGHT, i32::MAX);
    assert_eq!(queue(&player), vec![]);

    // Inwards from the edge is fine.
    handle_move_keys(&mut player, RIGHT, MAP_GAMEPLAY_MIN_Z);
    assert_eq!(queue(&player), vec![Right]);
    let mut player = Player::new();
    handle_move_keys(&mut player, LEFT, MAP_GAMEPLAY_MAX_Z);
    assert_eq!(queue(&player), vec![Left]);
}

#[test]
fn queued_lateral_jumps_count_towards_the_band() {
    // One lane from the edge: the first jump reaches it, the second would leave.
    let mut player = Player::new();
    handle_move_keys(&mut player, LEFT, MAP_GAMEPLAY_MIN_Z + 1);
    assert_eq!(queue(&player), vec![Left]);
    assert_eq!(player.resolve_lane(MAP_GAMEPLAY_MIN_Z + 1), MAP_GAMEPLAY_MIN_Z as i64);
    handle_move_keys(&mut player, LEFT, MAP_GAMEPLAY_MIN_Z + 1);
    assert_eq!(queue(&player), vec![Left]);

    let mut player = Player::new();
    handle_move_keys(&mut player, RIGHT, 3);
    handle_move_keys(&mut player, RIGHT, 3);
    assert_eq!(queue(&player), vec![Right]);

    // A queued jump the other way makes room.
    let mut player = Player::new();
    handle_move_keys(&mut player, RIGHT, MAP_GAMEPLAY_MIN_Z);
    handle_move_keys(&mut player, LEFT, MAP_GAMEPLAY_MIN_Z);
    assert_eq!(queue(&player), vec![Right, Left]);
    assert_eq!(player.count_queued(Left), 1);
    assert_eq!(player.count_queued(Right), 1);
    assert_eq!(player.count_queued(Forward), 0);
    assert_eq!(player.resolve_lane(MAP_GAMEPLAY_MIN_Z), MAP_GAMEPLAY_MIN_Z as i64);

    let mut player = Player::new();
    handle_move_keys(&mut player, LEFT, 0);
    handle_move_keys(&mut player, LEFT, 0);
    assert_eq!(player.resolve_lane(0), -2);
    assert_eq!(player.resolve_lane(i32::MIN), i32::MIN as i64 - 2);
}

#[test]
fn the_resolved_lane_never_leaves_the_band() {
    let keys = [NO_KEYS, FORWARD, BACK, LEFT, RIGHT];
    for lane in MAP_GAMEPLAY_MIN_Z..=MAP_GAMEPLAY_MAX_Z {
        for first in keys {
            for second in keys {
                for third in keys {
                    let mut player = Player::new();
                    for released in [first, second, third] {
                        handle_move_keys(&mut player, released, lane);
                        let resolved = player.resolve_lane(lane);
                        assert!(MAP_GAMEPLAY_MIN_Z as i64 <= resolved);
                        assert!(resolved <= MAP_GAMEPLAY_MAX_Z as i64);
                        assert!(player.queue_len() <= PLAYER_MAX_JUMP_QUEUE);
                    }
                }
            }
        }
    }
}

#[test]
fn a_jump_onto_an_obstacle_is_refused_until_it_is_cleared() {
    let mut map = map_around_spawn();
    map.register_obstacle(0, -1, 77);
    let mut player = grounded_player();
    handle_move_keys(&mut player, LEFT, 0);

    for _ in 0..3 {
        assert_eq!(init_player_move(&mut player, &map, 0, 0, AT_REST), None);
        assert!(player.is_grounded());
        assert!(player.is_initial_jump_made());
        assert_eq!(queue(&player), vec![Left]);
    }

    assert_eq!(map.unregister_range(0), vec![77]);
    let jump = init_player_move(&mut player, &map, 0, 0, AT_REST);
    assert_eq!(
        jump,
        Some(Jump { direction: Left, step_x: 0, step_z: -1, end_rotation: Some(-1) })
    );
    assert!(!player.is_grounded());
    assert!(!player.is_initial_jump_made());
    assert_eq!(queue(&player), vec![Left]);
}

#[test]
fn each_direction_lands_on_its_neighbouring_cell() {
    let cases = [
        (FORWARD, Forward, (3, 1), 1, 0),
        (BACK, Back, (1, 1), -1, 0),
        (LEFT, Left, (2, 0), 0, -1),
        (RIGHT, Right, (2, 2), 0, 1),
    ];
    for (keys, direction, blocked, step_x, step_z) in cases {
        let mut map = map_around_spawn();
        let mut player = grounded_player();
        handle_move_keys(&mut player, keys, 1);
        // Obstacles on every other neighbour do not matter.
        for (x, z) in [(3, 1), (1, 1), (2, 2), (2, 3)] {
            if (x, z) != blocked {
                map.register_obstacle(x, z, 1);
            }
        }
        let mut free = grounded_player();
        handle_move_keys(&mut free, keys, 1);
        let jump = init_player_move(&mut free, &map, 2, 1, AT_REST).unwrap();
        assert_eq!((jump.direction, jump.step_x, jump.step_z), (direction, step_x, step_z));

        if blocked.1 != 0 {
            map.register_obstacle(blocked.0, blocked.1, 2);
            assert_eq!(init_player_move(&mut player, &map, 2, 1, AT_REST), None);
            assert!(player.is_grounded());
        }
    }
}

#[test]
fn jump_initiation_needs_ground_and_a_queued_jump() {
    let map = map_around_spawn();

    let mut airborne = Player::new();
    handle_move_keys(&mut airborne, FORWARD, 0);
    assert_eq!(init_player_move(&mut airborne, &map, 0, 0, AT_REST), None);
    assert_eq!(queue(&airborne), vec![Forward]);
    assert!(!airborne.is_grounded());

    let mut idle = grounded_player();
    assert_eq!(init_player_move(&mut idle, &map, 0, 0, AT_REST), None);
    assert!(idle.is_grounded());
    assert!(idle.is_initial_jump_made());

    // At the edge of the number range there is no cell to be occupied.
    let mut player = grounded_player();
    handle_move_keys(&mut player, FORWARD, 0);
    let jump = init_player_move(&mut player, &map, i32::MAX, 0, AT_REST).unwrap();
    assert_eq!(jump.step_x, 1);
}

#[test]
fn landing_pops_the_jump_and_grounds_the_player() {
    let map = map_around_spawn();
    let mut player = grounded_player();
    handle_move_keys(&mut player, FORWARD, 0);
    handle_move_keys(&mut player, RIGHT, 0);
    assert!(init_player_move(&mut player, &map, 0, 0, AT_REST).is_some());

    // On the tick the jump began, the take-off's collision does not count.
    assert!(!move_player(&mut player, true));
    assert!(!player.is_grounded());
    assert!(player.is_initial_jump_made());
    assert_eq!(queue(&player), vec![Forward, Right]);

    // In flight.
    assert!(!move_player(&mut player, false));
    assert!(!player.is_grounded());
    assert_eq!(init_player_move(&mut player, &map, 0, 0, AT_REST), None);

    assert!(move_player(&mut player, true));
    assert!(player.is_grounded());
    assert_eq!(queue(&player), vec![Right]);

    // Standing on the ground is a collision in every tick.
    assert!(move_player(&mut player, true));
    assert_eq!(queue(&player), vec![]);
    assert!(move_player(&mut player, true));
    assert_eq!(queue(&player), vec![]);
    assert!(player.is_grounded());
}

#[test]
fn the_rotation_table() {
    let at = |quarter: i32| Facing { quarter: Some(quarter), near_rest: quarter.abs() <= 1 };
    let table = [
        (
            Forward,
            [Some(-6), Some(-2), None, Some(-2), Some(-2), Some(2), None, Some(2), Some(2)],
        ),
        (
            Back,
            [None, Some(-4), Some(0), Some(0), Some(0), Some(0), Some(4), Some(4), None],
        ),
        (
            Left,
            [Some(-5), Some(-5), Some(-1), None, Some(-1), Some(-1), Some(3), None, Some(3)],
        ),
        (
            Right,
            [Some(-3), None, Some(-3), Some(1), Some(1), None, Some(1), Some(5), Some(5)],
        ),
    ];
    for (direction, targets) in table {
        for (i, target) in targets.iter().enumerate() {
            assert_eq!(end_rotation(direction, at(i as i32 - 4)), *target);
        }
    }
    let astray = Facing { quarter: None, near_rest: false };
    for direction in [Forward, Back, Left, Right] {
        assert_eq!(end_rotation(direction, astray), None);
        assert_eq!(end_rotation(direction, Facing { quarter: Some(9), near_rest: false }), None);
    }
    assert_eq!(end_rotation(Back, Facing { quarter: None, near_rest: true }), Some(0));
    assert_eq!(end_rotation(Back, Facing { quarter: Some(2), near_rest: true }), Some(0));
    assert_eq!(end_rotation(Forward, Facing { quarter: None, near_rest: true }), None);
}

#[test]
fn the_idle_animation_waits_for_a_resting_player() {
    let airborne = Player::new();
    assert_eq!(flatten_player(&airborne, true, true, false, false), FlattenAction::Pause);

    let mut queued = grounded_player();
    handle_move_keys(&mut queued, FORWARD, 0);
    assert_eq!(flatten_player(&queued, true, true, false, false), FlattenAction::Pause);

    let resting = grounded_player();
    assert_eq!(flatten_player(&resting, false, true, false, true), FlattenAction::Play);
    assert_eq!(flatten_player(&resting, false, false, true, false), FlattenAction::Play);
    assert_eq!(flatten_player(&resting, true, true, false, true), FlattenAction::Flatten);
    assert_eq!(flatten_player(&resting, true, true, false, false), FlattenAction::Flatten);
    assert_eq!(flatten_player(&resting, true, true, true, false), FlattenAction::Play);
    assert_eq!(flatten_player(&resting, true, false, true, false), FlattenAction::Release);
    assert_eq!(flatten_player(&resting, true, false, false, false), FlattenAction::Release);
    assert_eq!(flatten_player(&resting, true, false, false, true), FlattenAction::Play);
}

#[test]
fn a_tick_runs_the_systems_in_their_order() {
    let map = map_around_spawn();
    let mut player = Player::new();

    // Falling onto the ground after spawning.
    let output = PlayerPlugin::update(AppState::Playing, &mut player, &map, input(NO_KEYS, true));
    assert_eq!(
        output,
        Some(PlayerOutput { landed: false, jump: None, flatten: FlattenAction::Pause })
    );
    let output = PlayerPlugin::update(AppState::Playing, &mut player, &map, input(NO_KEYS, true));
    assert_eq!(
        output,
        Some(PlayerOutput { landed: true, jump: None, flatten: FlattenAction::Play })
    );

    // A key released while grounded starts the jump within the same tick.
    let output = PlayerPlugin::update(AppState::Playing, &mut player, &map, input(FORWARD, true));
    assert_eq!(
        output,
        Some(PlayerOutput {
            landed: true,
            jump: Some(Jump { direction: Forward, step_x: 1, step_z: 0, end_rotation: Some(-2) }),
            flatten: FlattenAction::Pause,
        })
    );
    assert!(!player.is_grounded());
    assert_eq!(queue(&player), vec![Forward]);

    // Keys released in flight queue up; the collision of the take-off is ignored.
    let output = PlayerPlugin::update(AppState::Playing, &mut player, &map, input(RIGHT, true));
    assert_eq!(
        output,
        Some(PlayerOutput { landed: false, jump: None, flatten: FlattenAction::Pause })
    );
    assert_eq!(queue(&player), vec![Forward, Right]);

    // Landing starts the next queued jump in the tick of the landing.
    let mut landing = input(NO_KEYS, true);
    landing.cell_x = 1;
    let output = PlayerPlugin::update(AppState::Playing, &mut player, &map, landing);
    assert_eq!(
        output,
        Some(PlayerOutput {
            landed: true,
            jump: Some(Jump { direction: Right, step_x: 0, step_z: 1, end_rotation: Some(1) }),
            flatten: FlattenAction::Pause,
        })
    );
    assert_eq!(queue(&player), vec![Right]);
}

#[test]
fn nothing_runs_outside_the_playing_phase() {
    let map = map_around_spawn();
    for state in [
        AppState::LoadingModels,
        AppState::InsertingCurrentCharacter,
        AppState::InitialisingWorld,
        AppState::Clearing,
    ] {
        let mut player = grounded_player();
        assert_eq!(PlayerPlugin::update(state, &mut player, &map, input(FORWARD, true)), None);
        assert_eq!(queue(&player), vec![]);
        assert!(player.is_grounded());
    }
}

#[test]
fn directions_step_one_cell_along_their_axis() {
    assert_eq!((Forward.step_x(), Forward.step_z()), (1, 0));
    assert_eq!((Back.step_x(), Back.step_z()), (-1, 0));
    assert_eq!((Left.step_x(), Left.step_z()), (0, -1));
    assert_eq!((Right.step_x(), Right.step_z()), (0, 1));
}
