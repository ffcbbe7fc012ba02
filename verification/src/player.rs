//! The player's jump state machine: queued input, jump initiation against
//! the occupancy index, landing, and the choice of animations.
//!
//! Positions reach this module as grid cells and angles as the quarter turn
//! they are close to. Velocities, trajectories and interpolation are the
//! host's arithmetic on what the systems here decide.

use crate::constants::{MAP_GAMEPLAY_MAX_Z, MAP_GAMEPLAY_MIN_Z, PLAYER_MAX_JUMP_QUEUE};
use crate::states::AppState;
use crate::world::WorldMap;
use std::collections::VecDeque;
use vstd::prelude::*;

verus! {

/// Direction of a jump. Forward is towards rising chunk coordinates, right
/// towards rising lanes.
#[derive(Clone, Copy, Debug, PartialEq, Eq, Structural)]
pub enum PlayerJumpDirection {
    Forward,
    Back,
    Left,
    Right,
}

impl Default for PlayerJumpDirection {
    fn default() -> (direction: PlayerJumpDirection)
        ensures
            direction == PlayerJumpDirection::Forward,
    {
        PlayerJumpDirection::Forward
    }
}

impl PlayerJumpDirection {
    /// How far a jump in this direction moves the player along the chunk
    /// axis: one cell forward or back, or not at all.
    pub open spec fn spec_step_x(&self) -> int {
        match self {
            PlayerJumpDirection::Forward => 1,
            PlayerJumpDirection::Back => -1,
            _ => 0,
        }
    }

    /// How far a jump in this direction moves the player across the lanes:
    /// one lane left or right, or not at all.
    pub open spec fn spec_step_z(&self) -> int {
        match self {
            PlayerJumpDirection::Left => -1,
            PlayerJumpDirection::Right => 1,
            _ => 0,
        }
    }

    /// Cells moved along the chunk axis.
    pub fn step_x(&self) -> (step: i32)
        ensures
            step == self.spec_step_x(),
    {
        match self {
            PlayerJumpDirection::Forward => 1,
            PlayerJumpDirection::Back => -1,
            _ => 0,
        }
    }

    /// Lanes moved across.
    pub fn step_z(&self) -> (step: i32)
        ensures
            step == self.spec_step_z(),
    {
        match self {
            PlayerJumpDirection::Left => -1,
            PlayerJumpDirection::Right => 1,
            _ => 0,
        }
    }
}

/// How often `direction` occurs in `queue`.
pub open spec fn count_of(queue: Seq<PlayerJumpDirection>, direction: PlayerJumpDirection) -> nat
    decreases queue.len(),
{
    if queue.len() == 0 {
        0
    } else {
        count_of(queue.drop_last(), direction) + if queue.last() == direction {
            1nat
        } else {
            0nat
        }
    }
}

/// The lane the player will stand on once every jump of `queue` has been
/// made from `lane`.
pub open spec fn resolved_lane(queue: Seq<PlayerJumpDirection>, lane: int) -> int {
    lane - count_of(queue, PlayerJumpDirection::Left) + count_of(
        queue,
        PlayerJumpDirection::Right,
    )
}

/// Which groups of movement keys were released during this tick.
#[derive(Clone, Copy, Debug, PartialEq, Eq, Structural)]
pub struct MoveKeys {
    pub forward: bool,
    pub back: bool,
    pub left: bool,
    pub right: bool,
}

/// The jump that the released keys ask for and that a player on `lane` with
/// `queue` waiting accepts. A full queue accepts nothing. Forward takes
/// precedence over back, back over left, left over right, and only the first
/// group that was released is looked at. A lateral jump is accepted only if
/// the lane that the queue resolves to lies strictly inside the gameplay band
/// on the side the jump goes to.
pub open spec fn accepted_jump(
    queue: Seq<PlayerJumpDirection>,
    keys: MoveKeys,
    lane: int,
) -> Option<PlayerJumpDirection> {
    if queue.len() >= PLAYER_MAX_JUMP_QUEUE {
        None
    } else if keys.forward {
        Some(PlayerJumpDirection::Forward)
    } else if keys.back {
        Some(PlayerJumpDirection::Back)
    } else if keys.left {
        if resolved_lane(queue, lane) <= MAP_GAMEPLAY_MIN_Z {
            None
        } else {
            Some(PlayerJumpDirection::Left)
        }
    } else if keys.right {
        if resolved_lane(queue, lane) >= MAP_GAMEPLAY_MAX_Z {
            None
        } else {
            Some(PlayerJumpDirection::Right)
        }
    } else {
        None
    }
}

/// The quarter turn that the player's visual body faces, as far as the
/// rotation table needs it.
#[derive(Clone, Copy, Debug, PartialEq, Eq, Structural)]
pub struct Facing {
    /// The multiple of a quarter turn that the body's angle is within half a
    /// radian of, if there is one.
    pub quarter: Option<i32>,
    /// Whether the angle's magnitude is less than a quarter turn plus half a
    /// radian.
    pub near_rest: bool,
}

/// `facing` is close to `quarter` quarter turns.
pub open spec fn faces(facing: Facing, quarter: int) -> bool {
    facing.quarter == Some(quarter as i32)
}

/// The angle, in quarter turns, at which the body's rotation ends when it
/// jumps in `direction` while facing `facing`. The targets continue the
/// body's spin from where it is; a facing that the table does not know has no
/// target.
pub open spec fn spec_end_rotation(direction: PlayerJumpDirection, facing: Facing) -> Option<i32> {
    match direction {
        PlayerJumpDirection::Forward => {
            if faces(facing, 0) || faces(facing, -3) || faces(facing, -1) {
                Some(-2i32)
            } else if faces(facing, 4) || faces(facing, 1) || faces(facing, 3) {
                Some(2i32)
            } else if faces(facing, -4) {
                Some(-6i32)
            } else {
                None
            }
        },
        PlayerJumpDirection::Back => {
            if facing.near_rest || faces(facing, -2) {
                Some(0i32)
            } else if faces(facing, 2) || faces(facing, 3) {
                Some(4i32)
            } else if faces(facing, -3) {
                Some(-4i32)
            } else {
                None
            }
        },
        PlayerJumpDirection::Left => {
            if faces(facing, 2) || faces(facing, 4) {
                Some(3i32)
            } else if faces(facing, -2) || faces(facing, 1) || faces(facing, 0) {
                Some(-1i32)
            } else if faces(facing, -3) || faces(facing, -4) {
                Some(-5i32)
            } else {
                None
            }
        },
        PlayerJumpDirection::Right => {
            if faces(facing, 0) || faces(facing, -1) || faces(facing, 2) {
                Some(1i32)
            } else if faces(facing, -4) || faces(facing, -2) {
                Some(-3i32)
            } else if faces(facing, 4) || faces(facing, 3) {
                Some(5i32)
            } else {
                None
            }
        },
    }
}

/// Whether `facing` is close to `quarter` quarter turns.
fn is_facing(facing: Facing, quarter: i32) -> (close: bool)
    ensures
        close == faces(facing, quarter as int),
{
    match facing.quarter {
        Some(near) => near == quarter,
        None => false,
    }
}

/// The angle, in quarter turns, at which the body's rotation ends when it
/// jumps in `direction` while facing `facing`.
#[verifier::when_used_as_spec(spec_end_rotation)]
pub fn end_rotation(direction: PlayerJumpDirection, facing: Facing) -> (target: Option<i32>)
    ensures
        target == spec_end_rotation(direction, facing),
{
    match direction {
        PlayerJumpDirection::Forward => {
            if is_facing(facing, 0) || is_facing(facing, -3) || is_facing(facing, -1) {
                Some(-2)
            } else if is_facing(facing, 4) || is_facing(facing, 1) || is_facing(facing, 3) {
                Some(2)
            } else if is_facing(facing, -4) {
                Some(-6)
            } else {
                None
            }
        },
        PlayerJumpDirection::Back => {
            if facing.near_rest || is_facing(facing, -2) {
                Some(0)
            } else if is_facing(facing, 2) || is_facing(facing, 3) {
                Some(4)
            } else if is_facing(facing, -3) {
                Some(-4)
            } else {
                None
            }
        },
        PlayerJumpDirection::Left => {
            if is_facing(facing, 2) || is_facing(facing, 4) {
                Some(3)
            } else if is_facing(facing, -2) || is_facing(facing, 1) || is_facing(facing, 0) {
                Some(-1)
            } else if is_facing(facing, -3) || is_facing(facing, -4) {
                Some(-5)
            } else {
                None
            }
        },
        PlayerJumpDirection::Right => {
            if is_facing(facing, 0) || is_facing(facing, -1) || is_facing(facing, 2) {
                Some(1)
            } else if is_facing(facing, -4) || is_facing(facing, -2) {
                Some(-3)
            } else if is_facing(facing, 4) || is_facing(facing, 3) {
                Some(5)
            } else {
                None
            }
        },
    }
}

/// A jump that has been initiated.
#[derive(Clone, Copy, Debug, PartialEq, Eq, Structural)]
pub struct Jump {
    pub direction: PlayerJumpDirection,
    /// Displacement along the chunk axis, in cells.
    pub step_x: i32,
    /// Displacement across the lanes, in cells.
    pub step_z: i32,
    /// Where the body's rotation ends, in quarter turns.
    pub end_rotation: Option<i32>,
}

/// What the idle animation does this tick.
#[derive(Clone, Copy, Debug, PartialEq, Eq, Structural)]
pub enum FlattenAction {
    /// Pause the animation and force it to its end state.
    Pause,
    /// Let the animation play on.
    Play,
    /// Start squashing the body towards its flattened shape.
    Flatten,
    /// Start releasing the body towards its neutral shape.
    Release,
}

/// What the player's systems need to know of the world outside this tick.
#[derive(Clone, Copy, Debug, PartialEq, Eq, Structural)]
pub struct PlayerInput {
    /// Whether the physics engine reported a collision of the player's body.
    pub collided: bool,
    /// The movement keys released during this tick.
    pub released: MoveKeys,
    /// Chunk coordinate of the cell the player is on.
    pub cell_x: i32,
    /// Lane of the cell the player is on.
    pub cell_z: i32,
    /// Where the visual body faces once this tick's step of its rotation is
    /// done.
    pub facing: Facing,
    /// Whether the idle animation has run to its end.
    pub animation_complete: bool,
    /// Whether a movement key is held down.
    pub key_held: bool,
    /// Whether the body has its flattened shape.
    pub flattened: bool,
    /// Whether the body has its neutral shape.
    pub neutral: bool,
}

/// What the player's systems decided in one tick.
#[derive(Clone, Copy, Debug, PartialEq, Eq, Structural)]
pub struct PlayerOutput {
    /// The player landed: its velocity is to be zeroed.
    pub landed: bool,
    /// The jump that was initiated, if one was.
    pub jump: Option<Jump>,
    pub flatten: FlattenAction,
}

/// The state of the player's jump machine, as mathematical values.
pub struct PlayerView {
    /// Jumps waiting to be made; the first is the one in flight while the
    /// player is airborne.
    pub jump_queue: Seq<PlayerJumpDirection>,
    pub is_grounded: bool,
    /// Whether a tick has passed since the last jump began. Collisions count
    /// as landings only from then on.
    pub is_initial_jump_made: bool,
}

/// The player.
pub struct Player {
    jump_queue: VecDeque<PlayerJumpDirection>,
    is_grounded: bool,
    is_initial_jump_made: bool,
}

impl View for Player {
    type V = PlayerView;

    closed spec fn view(&self) -> PlayerView {
        PlayerView {
            jump_queue: self.jump_queue@,
            is_grounded: self.is_grounded,
            is_initial_jump_made: self.is_initial_jump_made,
        }
    }
}

/// The cell that a jump in `direction` from cell `(cell_x, cell_z)` lands on.
pub open spec fn destination(direction: PlayerJumpDirection, cell_x: int, cell_z: int) -> (
    int,
    int,
) {
    (cell_x + direction.spec_step_x(), cell_z + direction.spec_step_z())
}

/// An obstacle stands on cell `(x, z)` of the grid.
pub open spec fn occupied(obstacles: Map<(i32, i32), u64>, x: int, z: int) -> bool {
    i32::MIN <= x <= i32::MAX && i32::MIN <= z <= i32::MAX && obstacles.dom().contains(
        (x as i32, z as i32),
    )
}

/// `player` can begin the jump at the head of its queue from cell
/// `(cell_x, cell_z)`: it stands on the ground, a jump is waiting, and no
/// obstacle stands where the jump lands.
pub open spec fn can_jump(
    player: PlayerView,
    obstacles: Map<(i32, i32), u64>,
    cell_x: int,
    cell_z: int,
) -> bool {
    &&& player.is_grounded
    &&& player.jump_queue.len() > 0
    &&& !occupied(
        obstacles,
        destination(player.jump_queue[0], cell_x, cell_z).0,
        destination(player.jump_queue[0], cell_x, cell_z).1,
    )
}

/// `player` after a tick of movement in which the physics engine did or did
/// not report a collision. On the tick a jump begins, collisions are still
/// those of the take-off and do not count. A collision that counts lands the
/// player: the jump in flight leaves the queue and the player is grounded.
pub open spec fn moved(player: PlayerView, collided: bool) -> PlayerView {
    if player.is_initial_jump_made && collided {
        PlayerView {
            jump_queue: if player.jump_queue.len() > 0 {
                player.jump_queue.skip(1)
            } else {
                player.jump_queue
            },
            is_grounded: true,
            is_initial_jump_made: true,
        }
    } else {
        PlayerView { is_initial_jump_made: true, ..player }
    }
}

/// What the idle animation does for `player`: it runs only while the player
/// stands on the ground with nothing queued. Once it has run to its end, the
/// body is squashed while a movement key is held and released otherwise,
/// unless it has that shape already.
pub open spec fn spec_flatten(
    player: PlayerView,
    animation_complete: bool,
    key_held: bool,
    flattened: bool,
    neutral: bool,
) -> FlattenAction {
    if !player.is_grounded || player.jump_queue.len() > 0 {
        FlattenAction::Pause
    } else if !animation_complete {
        FlattenAction::Play
    } else if key_held {
        if flattened {
            FlattenAction::Play
        } else {
            FlattenAction::Flatten
        }
    } else {
        if neutral {
            FlattenAction::Play
        } else {
            FlattenAction::Release
        }
    }
}

impl Player {
    /// Holds of every player: at most two jumps wait in the queue.
    #[verifier::type_invariant]
    pub open spec fn well_formed(&self) -> bool {
        self@.jump_queue.len() <= PLAYER_MAX_JUMP_QUEUE
    }

    /// A player as it is spawned: in the air, with nothing queued.
    pub fn new() -> (player: Player)
        ensures
            player@ == (PlayerView {
                jump_queue: Seq::empty(),
                is_grounded: false,
                is_initial_jump_made: false,
            }),
    {
        Player { jump_queue: VecDeque::new(), is_grounded: false, is_initial_jump_made: false }
    }

    /// Number of jumps waiting in the queue.
    pub fn queue_len(&self) -> (count: usize)
        ensures
            count == self@.jump_queue.len(),
            count <= PLAYER_MAX_JUMP_QUEUE,
    {
        proof {
            use_type_invariant(self);
        }
        self.jump_queue.len()
    }

    /// The jump at position `index` of the queue.
    pub fn queued(&self, index: usize) -> (direction: Option<PlayerJumpDirection>)
        ensures
            direction == (if index < self@.jump_queue.len() {
                Some(self@.jump_queue[index as int])
            } else {
                None
            }),
    {
        if index < self.jump_queue.len() {
            Some(self.jump_queue[index])
        } else {
            None
        }
    }

    /// Whether the player stands on the ground.
    pub fn is_grounded(&self) -> (grounded: bool)
        ensures
            grounded == self@.is_grounded,
    {
        self.is_grounded
    }

    /// Whether a tick has passed since the last jump began.
    pub fn is_initial_jump_made(&self) -> (made: bool)
        ensures
            made == self@.is_initial_jump_made,
    {
        self.is_initial_jump_made
    }

    /// How often `direction` waits in the queue.
    pub fn count_queued(&self, direction: PlayerJumpDirection) -> (count: usize)
        ensures
            count == count_of(self@.jump_queue, direction),
            count <= self@.jump_queue.len(),
    {
        let mut count: usize = 0;
        let mut index: usize = 0;
        while index < self.jump_queue.len()
            invariant
                index <= self.jump_queue@.len(),
                count <= index,
                count == count_of(self.jump_queue@.take(index as int), direction),
            decreases self.jump_queue@.len() - index,
        {
            proof {
                assert(self.jump_queue@.take(index + 1).drop_last() =~= self.jump_queue@.take(
                    index as int,
                ));
            }
            if self.jump_queue[index] == direction {
                count = count + 1;
            }
            index = index + 1;
        }
        proof {
            assert(self.jump_queue@.take(index as int) =~= self.jump_queue@);
        }
        count
    }

    /// The lane that the queue resolves to from `lane`.
    pub fn resolve_lane(&self, lane: i32) -> (resolved: i64)
        ensures
            resolved == resolved_lane(self@.jump_queue, lane as int),
    {
        let left_queue = self.count_queued(PlayerJumpDirection::Left);
        let right_queue = self.count_queued(PlayerJumpDirection::Right);
        proof {
            use_type_invariant(self);
        }
        lane as i64 - left_queue as i64 + right_queue as i64
    }

    /// Moves the queue out of the player and leaves an empty one.
    fn take_queue(&mut self) -> (queue: VecDeque<PlayerJumpDirection>)
        ensures
            queue@ == old(self)@.jump_queue,
            final(self)@ == (PlayerView { jump_queue: Seq::empty(), ..old(self)@ }),
    {
        let mut queue: VecDeque<PlayerJumpDirection> = VecDeque::new();
        core::mem::swap(&mut self.jump_queue, &mut queue);
        queue
    }

    /// Moves `queue` into the player, whose own queue is dropped.
    fn put_queue(&mut self, queue: VecDeque<PlayerJumpDirection>)
        requires
            queue@.len() <= PLAYER_MAX_JUMP_QUEUE,
        ensures
            final(self)@ == (PlayerView { jump_queue: queue@, ..old(self)@ }),
    {
        let mut queue = queue;
        core::mem::swap(&mut self.jump_queue, &mut queue);
    }
}

impl Default for Player {
    fn default() -> (player: Player)
        ensures
            player@ == (PlayerView {
                jump_queue: Seq::empty(),
                is_grounded: false,
                is_initial_jump_made: false,
            }),
    {
        Player::new()
    }
}

/// `player` after the systems of one tick have run in their order: movement,
/// input capture, jump initiation. Each sees what the one before it left.
pub open spec fn updated(
    player: PlayerView,
    obstacles: Map<(i32, i32), u64>,
    input: PlayerInput,
) -> PlayerView {
    initiated(
        captured(moved(player, input.collided), input.released, input.cell_z as int),
        obstacles,
        input.cell_x as int,
        input.cell_z as int,
    )
}

/// `player` after the released keys have been captured on `lane`.
pub open spec fn captured(player: PlayerView, keys: MoveKeys, lane: int) -> PlayerView {
    match accepted_jump(player.jump_queue, keys, lane) {
        Some(direction) => PlayerView {
            jump_queue: player.jump_queue.push(direction),
            ..player
        },
        None => player,
    }
}

/// `player` after each of `inputs` has been captured on `lane`, one tick
/// after the other.
pub open spec fn captured_all(player: PlayerView, inputs: Seq<MoveKeys>, lane: int) -> PlayerView
    decreases inputs.len(),
{
    if inputs.len() == 0 {
        player
    } else {
        captured(captured_all(player, inputs.drop_last(), lane), inputs.last(), lane)
    }
}

/// Queue bound and lateral bound: whatever keys are released, the queue
/// never grows beyond its bound, a full queue stays as it is, and the lane
/// that the queue resolves to never leaves the gameplay band.
pub proof fn lemma_captured_stays_in_band(player: PlayerView, keys: MoveKeys, lane: int)
    requires
        player.jump_queue.len() <= PLAYER_MAX_JUMP_QUEUE,
        MAP_GAMEPLAY_MIN_Z <= resolved_lane(player.jump_queue, lane) <= MAP_GAMEPLAY_MAX_Z,
    ensures
        captured(player, keys, lane).jump_queue.len() <= PLAYER_MAX_JUMP_QUEUE,
        player.jump_queue.len() == PLAYER_MAX_JUMP_QUEUE ==> captured(player, keys, lane)
            == player,
        MAP_GAMEPLAY_MIN_Z <= resolved_lane(captured(player, keys, lane).jump_queue, lane)
            <= MAP_GAMEPLAY_MAX_Z,
{
    match accepted_jump(player.jump_queue, keys, lane) {
        Some(direction) => {
            assert(player.jump_queue.push(direction).drop_last() =~= player.jump_queue);
        },
        None => {},
    }
}

/// Lateral bound over any sequence of inputs: from a lane inside the
/// gameplay band, no sequence of released keys queues jumps that would carry
/// the player out of the band.
pub proof fn lemma_captured_all_stays_in_band(player: PlayerView, inputs: Seq<MoveKeys>, lane: int)
    requires
        player.jump_queue.len() <= PLAYER_MAX_JUMP_QUEUE,
        MAP_GAMEPLAY_MIN_Z <= resolved_lane(player.jump_queue, lane) <= MAP_GAMEPLAY_MAX_Z,
    ensures
        captured_all(player, inputs, lane).jump_queue.len() <= PLAYER_MAX_JUMP_QUEUE,
        MAP_GAMEPLAY_MIN_Z <= resolved_lane(captured_all(player, inputs, lane).jump_queue, lane)
            <= MAP_GAMEPLAY_MAX_Z,
    decreases inputs.len(),
{
    if inputs.len() > 0 {
        lemma_captured_all_stays_in_band(player, inputs.drop_last(), lane);
        lemma_captured_stays_in_band(
            captured_all(player, inputs.drop_last(), lane),
            inputs.last(),
            lane,
        );
    }
}

/// `player` after jump initiation on cell `(cell_x, cell_z)`: where it can
/// jump it is airborne, with the jump still at the head of the queue; where
/// it cannot, nothing changes.
pub open spec fn initiated(
    player: PlayerView,
    obstacles: Map<(i32, i32), u64>,
    cell_x: int,
    cell_z: int,
) -> PlayerView {
    if can_jump(player, obstacles, cell_x, cell_z) {
        PlayerView { is_grounded: false, is_initial_jump_made: false, ..player }
    } else {
        player
    }
}

/// The jump that `player` begins on cell `(cell_x, cell_z)` while facing
/// `facing`, if it can jump.
pub open spec fn initiated_jump(
    player: PlayerView,
    obstacles: Map<(i32, i32), u64>,
    cell_x: int,
    cell_z: int,
    facing: Facing,
) -> Option<Jump> {
    if can_jump(player, obstacles, cell_x, cell_z) {
        Some(
            Jump {
                direction: player.jump_queue[0],
                step_x: player.jump_queue[0].spec_step_x() as i32,
                step_z: player.jump_queue[0].spec_step_z() as i32,
                end_rotation: spec_end_rotation(player.jump_queue[0], facing),
            },
        )
    } else {
        None
    }
}

/// Occupancy: while an obstacle stands on the cell that the jump at the head
/// of the queue lands on, jump initiation begins no jump and leaves the
/// player as it is, grounded with the jump still waiting.
pub proof fn lemma_occupied_destination_refuses(
    player: PlayerView,
    obstacles: Map<(i32, i32), u64>,
    cell_x: int,
    cell_z: int,
    facing: Facing,
)
    requires
        player.jump_queue.len() > 0,
        occupied(
            obstacles,
            destination(player.jump_queue[0], cell_x, cell_z).0,
            destination(player.jump_queue[0], cell_x, cell_z).1,
        ),
    ensures
        initiated(player, obstacles, cell_x, cell_z) == player,
        initiated_jump(player, obstacles, cell_x, cell_z, facing).is_none(),
{
}

/// Movement: notes that a tick has passed since the last jump began, and
/// lands the player on a collision that counts. Returns whether the player
/// landed.
pub fn move_player(player: &mut Player, collided: bool) -> (landed: bool)
    ensures
        final(player)@ == moved(old(player)@, collided),
        landed == (old(player)@.is_initial_jump_made && collided),
{
    proof {
        use_type_invariant(&*player);
    }
    let landed = player.is_initial_jump_made && collided;
    if landed {
        let mut queue = player.take_queue();
        let _ = queue.pop_front();
        proof {
            let waiting = old(player)@.jump_queue;
            if waiting.len() > 0 {
                assert(waiting.subrange(1, waiting.len() as int) =~= waiting.skip(1));
            }
        }
        player.put_queue(queue);
        player.is_grounded = true;
    }
    player.is_initial_jump_made = true;
    landed
}

/// Input capture: appends the jump that the released keys ask for to the
/// queue, where the player accepts it. Whatever is not accepted is dropped.
pub fn handle_move_keys(player: &mut Player, keys: MoveKeys, lane: i32)
    ensures
        final(player)@ == captured(old(player)@, keys, lane as int),
        final(player)@.jump_queue.len() <= PLAYER_MAX_JUMP_QUEUE,
        old(player)@.jump_queue.len() >= PLAYER_MAX_JUMP_QUEUE ==> final(player)@ == old(player)@,
        MAP_GAMEPLAY_MIN_Z <= resolved_lane(old(player)@.jump_queue, lane as int)
            <= MAP_GAMEPLAY_MAX_Z ==> MAP_GAMEPLAY_MIN_Z <= resolved_lane(
            final(player)@.jump_queue,
            lane as int,
        ) <= MAP_GAMEPLAY_MAX_Z,
{
    proof {
        use_type_invariant(&*player);
    }
    if player.queue_len() >= PLAYER_MAX_JUMP_QUEUE {
        return ;
    }
    let direction = if keys.forward {
        PlayerJumpDirection::Forward
    } else if keys.back {
        PlayerJumpDirection::Back
    } else if keys.left {
        if player.resolve_lane(lane) <= MAP_GAMEPLAY_MIN_Z as i64 {
            return ;
        }
        PlayerJumpDirection::Left
    } else if keys.right {
        if player.resolve_lane(lane) >= MAP_GAMEPLAY_MAX_Z as i64 {
            return ;
        }
        PlayerJumpDirection::Right
    } else {
        return ;
    };
    let mut queue = player.take_queue();
    proof {
        assert(queue@.push(direction).drop_last() =~= queue@);
    }
    queue.push_back(direction);
    player.put_queue(queue);
}

/// Jump initiation: begins the jump at the head of the queue if the player
/// stands on the ground and no obstacle stands on the cell the jump lands
/// on. The jump stays in the queue until the player lands. Where the jump
/// cannot begin, the player is left as it was.
pub fn init_player_move(
    player: &mut Player,
    map: &WorldMap,
    cell_x: i32,
    cell_z: i32,
    facing: Facing,
) -> (jump: Option<Jump>)
    ensures
        final(player)@ == initiated(
            old(player)@,
            map.obstacles(),
            cell_x as int,
            cell_z as int,
        ),
        jump == initiated_jump(
            old(player)@,
            map.obstacles(),
            cell_x as int,
            cell_z as int,
            facing,
        ),
        !can_jump(old(player)@, map.obstacles(), cell_x as int, cell_z as int) ==> final(player)@
            == old(player)@ && jump.is_none(),
{
    proof {
        use_type_invariant(&*player);
    }
    if !player.is_grounded {
        return None;
    }
    let jump_direction = match player.queued(0) {
        Some(direction) => direction,
        None => {
            return None;
        },
    };
    let step_x = jump_direction.step_x();
    let step_z = jump_direction.step_z();
    let target_x = cell_x as i64 + step_x as i64;
    let target_z = cell_z as i64 + step_z as i64;
    if i32::MIN as i64 <= target_x && target_x <= i32::MAX as i64 && i32::MIN as i64 <= target_z
        && target_z <= i32::MAX as i64 {
        if map.is_occupied(target_x as i32, target_z as i32) {
            return None;
        }
    }
    player.is_grounded = false;
    player.is_initial_jump_made = false;
    Some(
        Jump {
            direction: jump_direction,
            step_x,
            step_z,
            end_rotation: end_rotation(jump_direction, facing),
        },
    )
}

/// Idle animation: decides what the squash animation of the body does.
pub fn flatten_player(
    player: &Player,
    animation_complete: bool,
    key_held: bool,
    flattened: bool,
    neutral: bool,
) -> (action: FlattenAction)
    ensures
        action == spec_flatten(player@, animation_complete, key_held, flattened, neutral),
{
    if !player.is_grounded || player.queue_len() > 0 {
        FlattenAction::Pause
    } else if !animation_complete {
        FlattenAction::Play
    } else if key_held {
        if flattened {
            FlattenAction::Play
        } else {
            FlattenAction::Flatten
        }
    } else {
        if neutral {
            FlattenAction::Play
        } else {
            FlattenAction::Release
        }
    }
}

/// The player's systems.
pub struct PlayerPlugin;

impl PlayerPlugin {
    /// Runs the player's systems for one tick, in the order that they depend
    /// on each other: movement, input capture, jump initiation, idle
    /// animation. Outside the playing phase nothing runs.
    pub fn update(
        app_state: AppState,
        player: &mut Player,
        map: &WorldMap,
        input: PlayerInput,
    ) -> (output: Option<PlayerOutput>)
        ensures
            app_state != AppState::Playing ==> output.is_none() && final(player)@ == old(player)@,
            final(player)@.jump_queue.len() <= PLAYER_MAX_JUMP_QUEUE,
            app_state == AppState::Playing ==> final(player)@ == updated(
                old(player)@,
                map.obstacles(),
                input,
            ) && output == Some(
                PlayerOutput {
                    landed: old(player)@.is_initial_jump_made && input.collided,
                    jump: initiated_jump(
                        captured(
                            moved(old(player)@, input.collided),
                            input.released,
                            input.cell_z as int,
                        ),
                        map.obstacles(),
                        input.cell_x as int,
                        input.cell_z as int,
                        input.facing,
                    ),
                    flatten: spec_flatten(
                        final(player)@,
                        input.animation_complete,
                        input.key_held,
                        input.flattened,
                        input.neutral,
                    ),
                },
            ),
    {
        proof {
            use_type_invariant(&*player);
        }
        match app_state {
            AppState::Playing => {},
            _ => {
                return None;
            },
        }
        let landed = move_player(player, input.collided);
        handle_move_keys(player, input.released, input.cell_z);
        let jump = init_player_move(player, map, input.cell_x, input.cell_z, input.facing);
        let flatten = flatten_player(
            player,
            input.animation_complete,
            input.key_held,
            input.flattened,
            input.neutral,
        );
        proof {
            use_type_invariant(&*player);
        }
        Some(PlayerOutput { landed, jump, flatten })
    }
}

} // verus!
