//! Entity components of the simulated world and the fixed-point coordinate
//! conventions they share.

use vstd::prelude::*;

verus! {

/// Subunits per world unit of the fixed-point coordinate scale.
pub const COORD_UNIT: i64 = 1024;

/// Largest magnitude (in subunits) a world coordinate may take. Chosen so
/// that every intermediate product of the movement and sliding arithmetic
/// fits comfortably in an `i128`.
pub const COORD_LIMIT: i64 = 0x4000_0000;

/// Largest magnitude (in subunits per tick) a player's move speed may take.
pub const SPEED_LIMIT: i64 = 0x10_0000;

/// Per-tick move speed given to every spawned player (two world units).
pub const MOVE_SPEED: i64 = 2 * COORD_UNIT;

/// Collider radius given to every spawned player (sixteen world units).
pub const PLAYER_RADIUS: i64 = 16 * COORD_UNIT;

/// X coordinate of the spawn point (256 world units).
pub const SPAWN_X: i64 = 256 * COORD_UNIT;

/// Y coordinate of the spawn point (192 world units).
pub const SPAWN_Y: i64 = 192 * COORD_UNIT;

/// A world coordinate the simulation accepts.
pub open spec fn coord_ok(c: i64) -> bool {
    -COORD_LIMIT <= c <= COORD_LIMIT
}

/// Global simulation step counter; the world holds exactly one.
#[derive(Clone, Copy, Debug, PartialEq, Eq, Structural)]
pub struct Tick {
    pub tick: u64,
}

/// Marker distinguishing player entities.
#[derive(Clone, Copy, Debug, PartialEq, Eq, Structural)]
pub struct Player;

/// Authoritative world-space location, in coordinate subunits.
#[derive(Clone, Copy, Debug, PartialEq, Eq, Structural)]
pub struct Position {
    pub x: i64,
    pub y: i64,
}

/// Displacement applied once per tick, in coordinate subunits.
#[derive(Clone, Copy, Debug, PartialEq, Eq, Structural)]
pub struct Velocity {
    pub x: i64,
    pub y: i64,
}

/// Destination the player is walking toward.
#[derive(Clone, Copy, Debug, PartialEq, Eq, Structural)]
pub struct MoveTarget {
    pub x: i64,
    pub y: i64,
}

/// How movement input is interpreted.
#[derive(Clone, Copy, Debug, PartialEq, Eq, Structural)]
pub enum MovementType {
    Target,
}

/// Movement tuning and input state of one player.
#[derive(Clone, Copy, Debug, PartialEq, Eq, Structural)]
pub struct PlayerMove {
    pub move_speed: i64,
    pub move_input_type: MovementType,
    pub timer: u64,
}

/// Circular collider of one player.
#[derive(Clone, Copy, Debug, PartialEq, Eq, Structural)]
pub struct PlayerCollision {
    pub radius: i64,
    pub offset_x: i64,
    pub offset_y: i64,
}

/// Movement state machine value.
#[derive(Clone, Copy, Debug, PartialEq, Eq, Structural)]
pub enum PlayerState {
    Idle,
    Move,
}

/// Movement state component of one player.
#[derive(Clone, Copy, Debug, PartialEq, Eq, Structural)]
pub struct State {
    pub state: PlayerState,
}

/// One static wall segment of the level geometry, in coordinate subunits.
#[derive(Clone, Copy, Debug, PartialEq, Eq, Structural)]
pub struct CollisionLine {
    pub x1: i64,
    pub y1: i64,
    pub x2: i64,
    pub y2: i64,
}

/// The static level geometry; the world holds exactly one.
#[derive(Debug)]
pub struct Collision {
    pub collision_lines: Vec<CollisionLine>,
}

/// Binds an entity to a network session by its 128-bit connection id.
#[derive(Clone, Copy, Debug, PartialEq, Eq, Structural)]
pub struct Connection {
    pub connection_id: u128,
}

/// One player entity: by the world invariant every player carries exactly
/// one of each component, so a player is stored as this fixed bundle.
#[derive(Clone, Copy, Debug, PartialEq, Eq, Structural)]
pub struct PlayerEntity {
    pub player: Player,
    pub connection: Connection,
    pub state: State,
    pub position: Position,
    pub velocity: Velocity,
    pub move_target: MoveTarget,
    pub player_collision: PlayerCollision,
    pub player_move: PlayerMove,
}

/// A wall segment whose coordinates the simulation accepts.
pub open spec fn line_ok(l: CollisionLine) -> bool {
    coord_ok(l.x1) && coord_ok(l.y1) && coord_ok(l.x2) && coord_ok(l.y2)
}

/// A velocity whose squared Euclidean norm is within the squared bound.
pub open spec fn velocity_within(v: Velocity, bound: i64) -> bool {
    v.x * v.x + v.y * v.y <= bound * bound
}

/// Well-formedness of one player entity: coordinates in range, speed
/// positive and bounded, velocity no faster than the player's move speed,
/// collider radius in range.
pub open spec fn player_wf(p: PlayerEntity) -> bool {
    &&& coord_ok(p.position.x) && coord_ok(p.position.y)
    &&& coord_ok(p.move_target.x) && coord_ok(p.move_target.y)
    &&& 0 < p.player_move.move_speed <= SPEED_LIMIT
    &&& velocity_within(p.velocity, p.player_move.move_speed)
    &&& 0 <= p.player_collision.radius <= COORD_LIMIT
}

} // verus!
