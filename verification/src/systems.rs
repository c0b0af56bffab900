//! The simulation systems run by every tick, in their fixed order: tick
//! counting and broadcast, event application, the movement state machine,
//! movement with wall sliding, integration, and the position broadcast.

use vstd::prelude::*;
use crate::components::{
    coord_ok, player_wf, velocity_within, CollisionLine, Connection, MoveTarget, MovementType,
    Player, PlayerCollision, PlayerEntity, PlayerMove, PlayerState, Position, State, Velocity,
    COORD_LIMIT, MOVE_SPEED, PLAYER_RADIUS, SPEED_LIMIT,
};
use crate::messages::{
    count_send_tick_to, lemma_contains_left, lemma_count_send_tick_concat, lemma_no_create_player_concat,
    lemma_no_send_tick_concat, no_create_player, no_send_tick, WorldToServer,
};
use crate::scripts::{
    collision_slide_velocity, div_trunc, div_trunc_i128, isqrt_ceil_u128, lemma_component_bound,
    lemma_mul_abs_bound, lemma_scaled_norm, spec_slide_passes, sqrt_ceil,
};
use crate::world::{spawned_player, ServerWorld};

verus! {

/// The `SendTick` messages for the first `i` players, in player order.
pub open spec fn spec_tick_messages_upto(
    players: Seq<PlayerEntity>,
    tick_value: u64,
    i: int,
) -> Seq<WorldToServer>
    decreases i,
{
    if i <= 0 {
        Seq::empty()
    } else {
        spec_tick_messages_upto(players, tick_value, i - 1) + seq![
            WorldToServer::SendTick {
                receiver_connection_id: players[i - 1].connection.connection_id,
                tick: tick_value,
            },
        ]
    }
}

/// The `SendTick` messages one tick emits: exactly one per player, in
/// player order, all carrying the same counter value.
pub open spec fn spec_tick_messages(players: Seq<PlayerEntity>, tick_value: u64) -> Seq<
    WorldToServer,
> {
    spec_tick_messages_upto(players, tick_value, players.len() as int)
}

/// Advances the tick counter by exactly one and queues one `SendTick`
/// broadcast per connected player, all carrying the new counter value.
#[verifier::loop_isolation(false)]
pub fn update_tick(world: &mut ServerWorld, to_server: &mut Vec<WorldToServer>)
    requires
        old(world).wf(),
        old(world).tick.tick < u64::MAX,
    ensures
        final(world).tick.tick == old(world).tick.tick + 1,
        final(world).players@ == old(world).players@,
        final(world).collision.collision_lines@ == old(world).collision.collision_lines@,
        final(world).wf(),
        final(to_server)@ == old(to_server)@ + spec_tick_messages(
            old(world).players@,
            (old(world).tick.tick + 1) as u64,
        ),
{
    world.tick.tick = world.tick.tick + 1;
    let tick_value = world.tick.tick;
    let ghost base = to_server@;
    let n = world.players.len();
    let mut i: usize = 0;
    while i < n
        invariant
            i <= n,
            to_server@ == base + spec_tick_messages_upto(world.players@, tick_value, i as int),
        decreases n - i,
    {
        to_server.push(
            WorldToServer::SendTick {
                receiver_connection_id: world.players[i].connection.connection_id,
                tick: tick_value,
            },
        );
        proof {
            assert(to_server@ =~= base + spec_tick_messages_upto(
                world.players@,
                tick_value,
                i + 1,
            ));
        }
        i = i + 1;
    }
}

/// The `CreatePlayer` messages one player entity occasions when the player
/// with the given connection id joins at `(x, y)`: the entity's own
/// connection learns of the new player, and, unless the entity is the new
/// player itself, the new connection learns of the entity.
pub open spec fn spec_create_messages_for(
    p: PlayerEntity,
    connection_id: u128,
    x: i64,
    y: i64,
) -> Seq<WorldToServer> {
    if p.connection.connection_id == connection_id {
        seq![
            WorldToServer::CreatePlayer {
                receiver_connection_id: p.connection.connection_id,
                connection_id,
                x,
                y,
            },
        ]
    } else {
        seq![
            WorldToServer::CreatePlayer {
                receiver_connection_id: p.connection.connection_id,
                connection_id,
                x,
                y,
            },
            WorldToServer::CreatePlayer {
                receiver_connection_id: connection_id,
                connection_id: p.connection.connection_id,
                x: p.position.x,
                y: p.position.y,
            },
        ]
    }
}

/// The join broadcasts occasioned by the first `i` entities of the world
/// as it stands after the spawn.
pub open spec fn spec_create_player_messages_upto(
    all: Seq<PlayerEntity>,
    connection_id: u128,
    x: i64,
    y: i64,
    i: int,
) -> Seq<WorldToServer>
    decreases i,
{
    if i <= 0 {
        Seq::empty()
    } else {
        spec_create_player_messages_upto(all, connection_id, x, y, i - 1)
            + spec_create_messages_for(all[i - 1], connection_id, x, y)
    }
}

/// All join broadcasts a `PlayerJoined` for `connection_id` at `(x, y)`
/// emits, given the players that existed before the join: every
/// pre-existing connection learns of the new player, and the new connection
/// learns of every existing player and of itself.
pub open spec fn spec_create_player_messages(
    existing: Seq<PlayerEntity>,
    connection_id: u128,
    x: i64,
    y: i64,
) -> Seq<WorldToServer> {
    spec_create_player_messages_upto(
        existing.push(spawned_player(connection_id, x, y)),
        connection_id,
        x,
        y,
        existing.len() as int + 1,
    )
}

/// Every join broadcast the entity at index `j` occasions is among the
/// broadcasts of the first `i` entities.
proof fn lemma_create_upto_covers(
    all: Seq<PlayerEntity>,
    connection_id: u128,
    x: i64,
    y: i64,
    i: int,
    j: int,
)
    requires
        0 <= j < i <= all.len(),
    ensures
        spec_create_player_messages_upto(all, connection_id, x, y, i).contains(
            WorldToServer::CreatePlayer {
                receiver_connection_id: all[j].connection.connection_id,
                connection_id,
                x,
                y,
            },
        ),
        all[j].connection.connection_id != connection_id
            ==> spec_create_player_messages_upto(all, connection_id, x, y, i).contains(
            WorldToServer::CreatePlayer {
                receiver_connection_id: connection_id,
                connection_id: all[j].connection.connection_id,
                x: all[j].position.x,
                y: all[j].position.y,
            },
        ),
    decreases i,
{
    let prefix = spec_create_player_messages_upto(all, connection_id, x, y, i - 1);
    let block = spec_create_messages_for(all[i - 1], connection_id, x, y);
    if j < i - 1 {
        lemma_create_upto_covers(all, connection_id, x, y, i - 1, j);
        lemma_contains_left(
            prefix,
            block,
            WorldToServer::CreatePlayer {
                receiver_connection_id: all[j].connection.connection_id,
                connection_id,
                x,
                y,
            },
        );
        if all[j].connection.connection_id != connection_id {
            lemma_contains_left(
                prefix,
                block,
                WorldToServer::CreatePlayer {
                    receiver_connection_id: connection_id,
                    connection_id: all[j].connection.connection_id,
                    x: all[j].position.x,
                    y: all[j].position.y,
                },
            );
        }
    } else {
        assert((prefix + block)[prefix.len() as int] == block[0]);
        if all[j].connection.connection_id != connection_id {
            assert((prefix + block)[prefix.len() as int + 1] == block[1]);
        }
    }
}

/// Law: the join broadcasts of a `PlayerJoined` tell every pre-existing
/// connection of the new player, and tell the new connection of every
/// existing player and of itself.
pub proof fn lemma_join_broadcast_coverage(
    existing: Seq<PlayerEntity>,
    connection_id: u128,
    x: i64,
    y: i64,
)
    requires
        forall|k: int|
            0 <= k < existing.len() ==> (#[trigger] existing[k]).connection.connection_id
                != connection_id,
    ensures
        forall|k: int|
            0 <= k < existing.len() ==> spec_create_player_messages(
                existing,
                connection_id,
                x,
                y,
            ).contains(
                WorldToServer::CreatePlayer {
                    receiver_connection_id: (#[trigger] existing[k]).connection.connection_id,
                    connection_id,
                    x,
                    y,
                },
            ),
        forall|k: int|
            0 <= k < existing.len() ==> spec_create_player_messages(
                existing,
                connection_id,
                x,
                y,
            ).contains(
                WorldToServer::CreatePlayer {
                    receiver_connection_id: connection_id,
                    connection_id: (#[trigger] existing[k]).connection.connection_id,
                    x: existing[k].position.x,
                    y: existing[k].position.y,
                },
            ),
        spec_create_player_messages(existing, connection_id, x, y).contains(
            WorldToServer::CreatePlayer {
                receiver_connection_id: connection_id,
                connection_id,
                x,
                y,
            },
        ),
{
    let all = existing.push(spawned_player(connection_id, x, y));
    let n = existing.len() as int;
    assert forall|k: int| 0 <= k < n implies spec_create_player_messages(
        existing,
        connection_id,
        x,
        y,
    ).contains(
        WorldToServer::CreatePlayer {
            receiver_connection_id: (#[trigger] existing[k]).connection.connection_id,
            connection_id,
            x,
            y,
        },
    ) && spec_create_player_messages(existing, connection_id, x, y).contains(
        WorldToServer::CreatePlayer {
            receiver_connection_id: connection_id,
            connection_id: existing[k].connection.connection_id,
            x: existing[k].position.x,
            y: existing[k].position.y,
        },
    ) by {
        assert(all[k] == existing[k]);
        lemma_create_upto_covers(all, connection_id, x, y, n + 1, k);
    }
    assert(all[n].connection.connection_id == connection_id);
    lemma_create_upto_covers(all, connection_id, x, y, n + 1, n);
}

/// Spawns the player entity for a newly joined connection at `(x, y)` --
/// idle, with zero velocity and the standard tuning -- and queues the join
/// broadcasts for every connection including the new one.
#[verifier::loop_isolation(false)]
pub fn create_player(
    world: &mut ServerWorld,
    to_server: &mut Vec<WorldToServer>,
    connection_id: u128,
    x: i64,
    y: i64,
)
    requires
        old(world).wf(),
        coord_ok(x),
        coord_ok(y),
        forall|i: int|
            0 <= i < old(world).players@.len() ==> (#[trigger] old(
                world,
            ).players@[i]).connection.connection_id != connection_id,
    ensures
        final(world).players@ == old(world).players@.push(spawned_player(connection_id, x, y)),
        final(world).tick == old(world).tick,
        final(world).collision.collision_lines@ == old(world).collision.collision_lines@,
        final(world).wf(),
        final(to_server)@ == old(to_server)@ + spec_create_player_messages(
            old(world).players@,
            connection_id,
            x,
            y,
        ),
{
    let new_player = PlayerEntity {
        player: Player,
        connection: Connection { connection_id },
        state: State { state: PlayerState::Idle },
        position: Position { x, y },
        velocity: Velocity { x: 0, y: 0 },
        move_target: MoveTarget { x, y },
        player_collision: PlayerCollision { radius: PLAYER_RADIUS, offset_x: 0, offset_y: 0 },
        player_move: PlayerMove {
            move_speed: MOVE_SPEED,
            move_input_type: MovementType::Target,
            timer: 0,
        },
    };
    world.players.push(new_player);
    proof {
        assert(new_player == spawned_player(connection_id, x, y));
        assert(player_wf(new_player));
        assert(world.wf());
    }
    let ghost base = to_server@;
    let ghost all = world.players@;
    let n = world.players.len();
    let mut i: usize = 0;
    while i < n
        invariant
            i <= n,
            to_server@ == base + spec_create_player_messages_upto(all, connection_id, x, y, i as int),
        decreases n - i,
    {
        let p_conn = world.players[i].connection.connection_id;
        to_server.push(
            WorldToServer::CreatePlayer {
                receiver_connection_id: p_conn,
                connection_id,
                x,
                y,
            },
        );
        if p_conn != connection_id {
            let px = world.players[i].position.x;
            let py = world.players[i].position.y;
            to_server.push(
                WorldToServer::CreatePlayer {
                    receiver_connection_id: connection_id,
                    connection_id: p_conn,
                    x: px,
                    y: py,
                },
            );
        }
        proof {
            assert(to_server@ =~= base + spec_create_player_messages_upto(
                all,
                connection_id,
                x,
                y,
                i + 1,
            ));
        }
        i = i + 1;
    }
}

/// One player after a click-to-move input: the move target moves to the
/// click, the input mode returns to target-seeking, and the movement timer
/// restarts.
pub open spec fn spec_clicked_player(p: PlayerEntity, x: i64, y: i64) -> PlayerEntity {
    PlayerEntity {
        move_target: MoveTarget { x, y },
        player_move: PlayerMove {
            move_speed: p.player_move.move_speed,
            move_input_type: MovementType::Target,
            timer: 0,
        },
        ..p
    }
}

/// The players after a click-to-move input for `connection_id`, searching
/// from index `i` on: the first matching entity takes the click; without a
/// match nothing changes.
pub open spec fn spec_input_click_from(
    players: Seq<PlayerEntity>,
    connection_id: u128,
    x: i64,
    y: i64,
    i: int,
) -> Seq<PlayerEntity>
    decreases players.len() - i,
{
    if i < 0 || i >= players.len() {
        players
    } else if players[i].connection.connection_id == connection_id {
        players.update(i, spec_clicked_player(players[i], x, y))
    } else {
        spec_input_click_from(players, connection_id, x, y, i + 1)
    }
}

/// The players after a click-to-move input for `connection_id`.
pub open spec fn spec_input_click(
    players: Seq<PlayerEntity>,
    connection_id: u128,
    x: i64,
    y: i64,
) -> Seq<PlayerEntity> {
    spec_input_click_from(players, connection_id, x, y, 0)
}

/// Searching from `i` with the match at `j` updates exactly the match.
proof fn lemma_input_click_at(
    players: Seq<PlayerEntity>,
    connection_id: u128,
    x: i64,
    y: i64,
    i: int,
    j: int,
)
    requires
        0 <= i <= j < players.len(),
        players[j].connection.connection_id == connection_id,
        forall|k: int|
            i <= k < j ==> (#[trigger] players[k]).connection.connection_id != connection_id,
    ensures
        spec_input_click_from(players, connection_id, x, y, i) == players.update(
            j,
            spec_clicked_player(players[j], x, y),
        ),
    decreases j - i,
{
    if i < j {
        lemma_input_click_at(players, connection_id, x, y, i + 1, j);
    }
}

/// Searching from `i` with no match leaves the players unchanged.
proof fn lemma_input_click_none(
    players: Seq<PlayerEntity>,
    connection_id: u128,
    x: i64,
    y: i64,
    i: int,
)
    requires
        0 <= i,
        forall|k: int|
            i <= k < players.len() ==> (#[trigger] players[k]).connection.connection_id
                != connection_id,
    ensures
        spec_input_click_from(players, connection_id, x, y, i) == players,
    decreases players.len() - i,
{
    if i < players.len() {
        lemma_input_click_none(players, connection_id, x, y, i + 1);
    }
}

/// Applies a click-to-move input: the entity matching the connection id
/// (the first, were there several) gets its move target set to the click
/// and its movement timer reset; other entities are untouched.
#[verifier::loop_isolation(false)]
pub fn input_click_pressed(world: &mut ServerWorld, connection_id: u128, x: i64, y: i64)
    requires
        old(world).wf(),
        coord_ok(x),
        coord_ok(y),
    ensures
        final(world).players@ == spec_input_click(old(world).players@, connection_id, x, y),
        final(world).tick == old(world).tick,
        final(world).collision.collision_lines@ == old(world).collision.collision_lines@,
        final(world).wf(),
{
    let ghost orig = world.players@;
    let n = world.players.len();
    let mut j: usize = 0;
    let mut found = false;
    while j < n && !found
        invariant
            j <= n,
            world.tick == old(world).tick,
            world.collision.collision_lines@ == old(world).collision.collision_lines@,
            !found ==> world.players@ == orig,
            !found ==> forall|k: int|
                0 <= k < j ==> (#[trigger] orig[k]).connection.connection_id != connection_id,
            found ==> j < n && orig[j as int].connection.connection_id == connection_id,
            found ==> forall|k: int|
                0 <= k < j ==> (#[trigger] orig[k]).connection.connection_id != connection_id,
            found ==> world.players@ == orig.update(
                j as int,
                spec_clicked_player(orig[j as int], x, y),
            ),
        decreases n - j + (if found { 0int } else { 1int }),
    {
        if world.players[j].connection.connection_id == connection_id {
            let mut p = world.players[j];
            p.move_target = MoveTarget { x, y };
            p.player_move.move_input_type = MovementType::Target;
            p.player_move.timer = 0;
            world.players[j] = p;
            found = true;
        } else {
            j = j + 1;
        }
    }
    proof {
        if found {
            lemma_input_click_at(orig, connection_id, x, y, 0, j as int);
        } else {
            lemma_input_click_none(orig, connection_id, x, y, 0);
        }
        assert forall|i: int| 0 <= i < final(world).players@.len() implies player_wf(
            #[trigger] final(world).players@[i],
        ) by {
            assert(player_wf(orig[i]));
        }
    }
}

/// One player after the state-transition system: in motion exactly when
/// some distance to the move target remains; exact arrival is the only
/// idle trigger.
pub open spec fn spec_update_state_player(p: PlayerEntity) -> PlayerEntity {
    PlayerEntity {
        state: State {
            state: if p.move_target.x == p.position.x && p.move_target.y == p.position.y {
                PlayerState::Idle
            } else {
                PlayerState::Move
            },
        },
        ..p
    }
}

/// All players after the state-transition system.
pub open spec fn spec_update_state_players(players: Seq<PlayerEntity>) -> Seq<PlayerEntity> {
    Seq::new(players.len(), |i: int| spec_update_state_player(players[i]))
}

/// State-transition system: each player moves exactly when its position
/// differs from its move target.
#[verifier::loop_isolation(false)]
pub fn update_state(world: &mut ServerWorld)
    requires
        old(world).wf(),
    ensures
        final(world).players@ == spec_update_state_players(old(world).players@),
        final(world).tick == old(world).tick,
        final(world).collision.collision_lines@ == old(world).collision.collision_lines@,
        final(world).wf(),
{
    let ghost orig = world.players@;
    let n = world.players.len();
    let mut i: usize = 0;
    while i < n
        invariant
            i <= n,
            world.players@.len() == n,
            world.tick == old(world).tick,
            world.collision.collision_lines@ == old(world).collision.collision_lines@,
            forall|k: int| i <= k < n ==> world.players@[k] == orig[k],
            forall|k: int| 0 <= k < i ==> world.players@[k] == spec_update_state_player(orig[k]),
        decreases n - i,
    {
        let mut p = world.players[i];
        if p.move_target.x == p.position.x && p.move_target.y == p.position.y {
            p.state = State { state: PlayerState::Idle };
        } else {
            p.state = State { state: PlayerState::Move };
        }
        world.players[i] = p;
        i = i + 1;
    }
    proof {
        assert(world.players@ =~= spec_update_state_players(orig));
        assert forall|k: int| 0 <= k < final(world).players@.len() implies player_wf(
            #[trigger] final(world).players@[k],
        ) by {
            assert(player_wf(orig[k]));
        }
    }
}

/// The per-tick velocity a moving player desires: the vector to the move
/// target, clamped to the player's move speed; if the remaining distance is
/// within one step of speed, the exact remaining vector, landing on the
/// target without overshoot.
pub open spec fn spec_desired_velocity(px: int, py: int, tx: int, ty: int, speed: int) -> (
    int,
    int,
) {
    let dx = tx - px;
    let dy = ty - py;
    let len2 = dx * dx + dy * dy;
    if len2 > speed * speed {
        let l = sqrt_ceil(len2);
        (div_trunc(dx * speed, l), div_trunc(dy * speed, l))
    } else {
        (dx, dy)
    }
}

/// Computes the desired per-tick velocity toward the move target.
fn desired_velocity(px: i64, py: i64, tx: i64, ty: i64, speed: i64) -> (r: (i64, i64))
    requires
        coord_ok(px),
        coord_ok(py),
        coord_ok(tx),
        coord_ok(ty),
        0 < speed <= SPEED_LIMIT,
    ensures
        r.0 as int == spec_desired_velocity(px as int, py as int, tx as int, ty as int, speed as int).0,
        r.1 as int == spec_desired_velocity(px as int, py as int, tx as int, ty as int, speed as int).1,
        r.0 * r.0 + r.1 * r.1 <= speed * speed,
{
    let dx = tx as i128 - px as i128;
    let dy = ty as i128 - py as i128;
    proof {
        lemma_mul_abs_bound(dx as int, dx as int, 0x80000000, 0x80000000);
        lemma_mul_abs_bound(dy as int, dy as int, 0x80000000, 0x80000000);
        lemma_mul_abs_bound(speed as int, speed as int, 0x100000, 0x100000);
    }
    let len2 = dx * dx + dy * dy;
    let sp2 = (speed as i128) * (speed as i128);
    if len2 > sp2 {
        let l = isqrt_ceil_u128(len2 as u128);
        proof {
            assert(l as int == sqrt_ceil(len2 as int));
            assert(l >= 1) by {
                assert(len2 as int <= (l as int) * (l as int));
                if l == 0 {
                    assert((0int) * (0int) == 0);
                }
            }
            lemma_mul_abs_bound(dx as int, speed as int, 0x80000000, 0x100000);
            lemma_mul_abs_bound(dy as int, speed as int, 0x80000000, 0x100000);
        }
        let wx = div_trunc_i128(dx * (speed as i128), l as i128);
        let wy = div_trunc_i128(dy * (speed as i128), l as i128);
        proof {
            lemma_scaled_norm(dx as int, dy as int, speed as int, l as int);
            lemma_component_bound(wx as int, wy as int, speed as int);
        }
        (wx as i64, wy as i64)
    } else {
        proof {
            lemma_component_bound(dx as int, dy as int, speed as int);
        }
        (dx as i64, dy as i64)
    }
}

/// One player after the movement system. Idle: the target snaps to the
/// position and the velocity is zeroed. Moving: the desired velocity
/// toward the target is adjusted by four sliding passes over the level
/// geometry; if the adjusted velocity is exactly zero, contact counts as
/// arrival and the target snaps to the position.
pub open spec fn spec_handle_state_player(p: PlayerEntity, lines: Seq<CollisionLine>) -> PlayerEntity {
    match p.state.state {
        PlayerState::Idle => PlayerEntity {
            move_target: MoveTarget { x: p.position.x, y: p.position.y },
            velocity: Velocity { x: 0, y: 0 },
            ..p
        },
        PlayerState::Move => {
            let v = spec_desired_velocity(
                p.position.x as int,
                p.position.y as int,
                p.move_target.x as int,
                p.move_target.y as int,
                p.player_move.move_speed as int,
            );
            let w = spec_slide_passes(
                p.position.x as int,
                p.position.y as int,
                v.0,
                v.1,
                p.player_collision.radius as int,
                lines,
                4,
            );
            let vel = Velocity { x: w.0 as i64, y: w.1 as i64 };
            if w.0 == 0 && w.1 == 0 {
                PlayerEntity {
                    velocity: vel,
                    move_target: MoveTarget { x: p.position.x, y: p.position.y },
                    ..p
                }
            } else {
                PlayerEntity { velocity: vel, ..p }
            }
        },
    }
}

/// All players after the movement system.
pub open spec fn spec_handle_state_players(
    players: Seq<PlayerEntity>,
    lines: Seq<CollisionLine>,
) -> Seq<PlayerEntity> {
    Seq::new(players.len(), |i: int| spec_handle_state_player(players[i], lines))
}

/// Movement system: sets each player's velocity from its state, sliding
/// along walls, and treats contact that stops the player as arrival.
#[verifier::loop_isolation(false)]
#[verifier::rlimit(30)]
pub fn handle_state(world: &mut ServerWorld)
    requires
        old(world).wf(),
    ensures
        final(world).players@ == spec_handle_state_players(
            old(world).players@,
            old(world).collision.collision_lines@,
        ),
        final(world).tick == old(world).tick,
        final(world).collision.collision_lines@ == old(world).collision.collision_lines@,
        final(world).wf(),
{
    let ghost orig = world.players@;
    let ghost lines = world.collision.collision_lines@;
    let n = world.players.len();
    let mut i: usize = 0;
    while i < n
        invariant
            i <= n,
            world.players@.len() == n,
            world.tick == old(world).tick,
            world.collision.collision_lines@ == lines,
            forall|k: int| i <= k < n ==> world.players@[k] == orig[k],
            forall|k: int|
                0 <= k < i ==> world.players@[k] == spec_handle_state_player(orig[k], lines),
            forall|k: int| 0 <= k < i ==> player_wf(#[trigger] world.players@[k]),
        decreases n - i,
    {
        let mut p = world.players[i];
        proof {
            assert(player_wf(orig[i as int]));
        }
        match p.state.state {
            PlayerState::Idle => {
                p.move_target = MoveTarget { x: p.position.x, y: p.position.y };
                p.velocity = Velocity { x: 0, y: 0 };
            },
            PlayerState::Move => {
                let dv = desired_velocity(
                    p.position.x,
                    p.position.y,
                    p.move_target.x,
                    p.move_target.y,
                    p.player_move.move_speed,
                );
                let vel = Velocity { x: dv.0, y: dv.1 };
                proof {
                    assert(p.player_move.move_speed * p.player_move.move_speed <= SPEED_LIMIT
                        * SPEED_LIMIT) by (nonlinear_arith)
                        requires
                            0 < p.player_move.move_speed <= SPEED_LIMIT,
                    ;
                }
                let pos = p.position;
                let w = collision_slide_velocity(&pos, &vel, &p.player_collision, &world.collision, 4);
                p.velocity = Velocity { x: w.0, y: w.1 };
                proof {
                    assert(w.0 * w.0 + w.1 * w.1 <= vel.x * vel.x + vel.y * vel.y);
                    assert(vel.x * vel.x + vel.y * vel.y == dv.0 * dv.0 + dv.1 * dv.1);
                    assert(dv.0 * dv.0 + dv.1 * dv.1 <= p.player_move.move_speed
                        * p.player_move.move_speed);
                    assert(velocity_within(p.velocity, p.player_move.move_speed));
                }
                if w.0 == 0 && w.1 == 0 {
                    p.move_target = MoveTarget { x: p.position.x, y: p.position.y };
                }
            },
        }
        proof {
            assert(0 <= p.player_move.move_speed * p.player_move.move_speed) by (nonlinear_arith)
                requires
                    0 < p.player_move.move_speed,
            ;
            assert(coord_ok(p.position.x) && coord_ok(p.position.y));
            assert(coord_ok(p.move_target.x) && coord_ok(p.move_target.y));
            assert(velocity_within(p.velocity, p.player_move.move_speed));
            assert(player_wf(p));
        }
        world.players[i] = p;
        i = i + 1;
    }
    proof {
        assert(world.players@ =~= spec_handle_state_players(orig, lines));
    }
}

/// A coordinate clamped to the world's coordinate range.
pub open spec fn spec_clamp(c: int) -> int {
    if c < -COORD_LIMIT {
        -COORD_LIMIT as int
    } else if c > COORD_LIMIT {
        COORD_LIMIT as int
    } else {
        c
    }
}

/// One player after integration: the velocity is added to the position,
/// saturating at the world's coordinate range.
pub open spec fn spec_apply_velocity_player(p: PlayerEntity) -> PlayerEntity {
    PlayerEntity {
        position: Position {
            x: spec_clamp(p.position.x + p.velocity.x) as i64,
            y: spec_clamp(p.position.y + p.velocity.y) as i64,
        },
        ..p
    }
}

/// All players after integration.
pub open spec fn spec_apply_velocity_players(players: Seq<PlayerEntity>) -> Seq<PlayerEntity> {
    Seq::new(players.len(), |i: int| spec_apply_velocity_player(players[i]))
}

/// Integration system: position += velocity, unconditionally, for every
/// player, saturating at the world's coordinate range.
#[verifier::loop_isolation(false)]
pub fn apply_velocity(world: &mut ServerWorld)
    requires
        old(world).wf(),
    ensures
        final(world).players@ == spec_apply_velocity_players(old(world).players@),
        final(world).tick == old(world).tick,
        final(world).collision.collision_lines@ == old(world).collision.collision_lines@,
        final(world).wf(),
{
    let ghost orig = world.players@;
    let n = world.players.len();
    let mut i: usize = 0;
    while i < n
        invariant
            i <= n,
            world.players@.len() == n,
            world.tick == old(world).tick,
            world.collision.collision_lines@ == old(world).collision.collision_lines@,
            forall|k: int| i <= k < n ==> world.players@[k] == orig[k],
            forall|k: int|
                0 <= k < i ==> world.players@[k] == spec_apply_velocity_player(orig[k]),
            forall|k: int| 0 <= k < i ==> player_wf(#[trigger] world.players@[k]),
        decreases n - i,
    {
        let mut p = world.players[i];
        proof {
            assert(player_wf(orig[i as int]));
            lemma_component_bound(
                p.velocity.x as int,
                p.velocity.y as int,
                p.player_move.move_speed as int,
            );
        }
        let nx = p.position.x + p.velocity.x;
        let ny = p.position.y + p.velocity.y;
        let cx = if nx < -COORD_LIMIT {
            -COORD_LIMIT
        } else if nx > COORD_LIMIT {
            COORD_LIMIT
        } else {
            nx
        };
        let cy = if ny < -COORD_LIMIT {
            -COORD_LIMIT
        } else if ny > COORD_LIMIT {
            COORD_LIMIT
        } else {
            ny
        };
        p.position = Position { x: cx, y: cy };
        world.players[i] = p;
        i = i + 1;
    }
    proof {
        assert(world.players@ =~= spec_apply_velocity_players(orig));
    }
}

/// The `UpdatePlayerPosition` messages addressed to one receiver for the
/// first `j` players.
pub open spec fn spec_broadcast_row_upto(
    players: Seq<PlayerEntity>,
    receiver: u128,
    j: int,
) -> Seq<WorldToServer>
    decreases j,
{
    if j <= 0 {
        Seq::empty()
    } else {
        spec_broadcast_row_upto(players, receiver, j - 1) + seq![
            WorldToServer::UpdatePlayerPosition {
                receiver_connection_id: receiver,
                connection_id: players[j - 1].connection.connection_id,
                x: players[j - 1].position.x,
                y: players[j - 1].position.y,
            },
        ]
    }
}

/// The `UpdatePlayerPosition` messages addressed to one receiver: one per
/// player, in player order.
pub open spec fn spec_broadcast_row(players: Seq<PlayerEntity>, receiver: u128) -> Seq<
    WorldToServer,
> {
    spec_broadcast_row_upto(players, receiver, players.len() as int)
}

/// The position broadcasts for the first `i` receiving connections.
pub open spec fn spec_broadcast_upto(players: Seq<PlayerEntity>, i: int) -> Seq<WorldToServer>
    decreases i,
{
    if i <= 0 {
        Seq::empty()
    } else {
        spec_broadcast_upto(players, i - 1) + spec_broadcast_row(
            players,
            players[i - 1].connection.connection_id,
        )
    }
}

/// The all-pairs position broadcast of one tick: for every connection, one
/// `UpdatePlayerPosition` per player, including the receiver itself.
pub open spec fn spec_broadcast_messages(players: Seq<PlayerEntity>) -> Seq<WorldToServer> {
    spec_broadcast_upto(players, players.len() as int)
}

/// Broadcast system: queues, for every connection and for every player
/// entity including itself, an `UpdatePlayerPosition` addressed to that
/// connection.
#[verifier::loop_isolation(false)]
pub fn broadcast_positions(world: &ServerWorld, to_server: &mut Vec<WorldToServer>)
    ensures
        final(to_server)@ == old(to_server)@ + spec_broadcast_messages(world.players@),
{
    let ghost base = to_server@;
    let n = world.players.len();
    let mut i: usize = 0;
    while i < n
        invariant
            i <= n,
            to_server@ == base + spec_broadcast_upto(world.players@, i as int),
        decreases n - i,
    {
        let receiver = world.players[i].connection.connection_id;
        let mut j: usize = 0;
        while j < n
            invariant
                i < n,
                j <= n,
                receiver == world.players@[i as int].connection.connection_id,
                to_server@ == base + spec_broadcast_upto(world.players@, i as int)
                    + spec_broadcast_row_upto(world.players@, receiver, j as int),
            decreases n - j,
        {
            to_server.push(
                WorldToServer::UpdatePlayerPosition {
                    receiver_connection_id: receiver,
                    connection_id: world.players[j].connection.connection_id,
                    x: world.players[j].position.x,
                    y: world.players[j].position.y,
                },
            );
            proof {
                assert(to_server@ =~= base + spec_broadcast_upto(world.players@, i as int)
                    + spec_broadcast_row_upto(world.players@, receiver, j + 1));
            }
            j = j + 1;
        }
        proof {
            assert(to_server@ =~= base + spec_broadcast_upto(world.players@, i + 1));
        }
        i = i + 1;
    }
}

/// The tick broadcast consists exactly of one `SendTick` per player, in
/// player order, each addressed to that player's connection and carrying
/// the counter value.
pub proof fn lemma_tick_messages_shape(players: Seq<PlayerEntity>, t: u64, i: int)
    requires
        0 <= i <= players.len(),
    ensures
        spec_tick_messages_upto(players, t, i).len() == i,
        forall|k: int|
            0 <= k < i ==> #[trigger] spec_tick_messages_upto(players, t, i)[k]
                == (WorldToServer::SendTick {
                receiver_connection_id: players[k].connection.connection_id,
                tick: t,
            }),
    decreases i,
{
    if i > 0 {
        lemma_tick_messages_shape(players, t, i - 1);
    }
}

/// With unique connection ids, the tick broadcast counts exactly one
/// `SendTick` for a connection that has a player, and none otherwise.
pub proof fn lemma_count_tick_messages(players: Seq<PlayerEntity>, t: u64, c: u128, i: int)
    requires
        0 <= i <= players.len(),
        forall|a: int, b: int|
            0 <= a < b < players.len() ==> (#[trigger] players[a]).connection.connection_id != (
            #[trigger] players[b]).connection.connection_id,
    ensures
        count_send_tick_to(spec_tick_messages_upto(players, t, i), c) == (
        if exists|k: int| 0 <= k < i && (#[trigger] players[k]).connection.connection_id == c {
            1nat
        } else {
            0nat
        }),
    decreases i,
{
    if i > 0 {
        lemma_count_tick_messages(players, t, c, i - 1);
        let m = WorldToServer::SendTick {
            receiver_connection_id: players[i - 1].connection.connection_id,
            tick: t,
        };
        let single = seq![m];
        lemma_count_send_tick_concat(spec_tick_messages_upto(players, t, i - 1), single, c);
        assert(single.len() == 1);
        assert(single[0] == m);
        assert(single.drop_first() =~= Seq::<WorldToServer>::empty());
        assert(count_send_tick_to(Seq::<WorldToServer>::empty(), c) == 0);
        if players[i - 1].connection.connection_id == c {
            assert(!(exists|k: int|
                0 <= k < i - 1 && (#[trigger] players[k]).connection.connection_id == c)) by {
                if exists|k: int|
                    0 <= k < i - 1 && (#[trigger] players[k]).connection.connection_id == c {
                    let k = choose|k: int|
                        0 <= k < i - 1 && (#[trigger] players[k]).connection.connection_id == c;
                    assert(players[k].connection.connection_id != players[i
                        - 1].connection.connection_id);
                }
            }
            assert(count_send_tick_to(single, c) == 1);
        } else {
            assert(count_send_tick_to(single, c) == 0);
            assert((exists|k: int|
                0 <= k < i && (#[trigger] players[k]).connection.connection_id == c) == (exists|
                k: int,
            | 0 <= k < i - 1 && (#[trigger] players[k]).connection.connection_id == c)) by {
                if exists|k: int|
                    0 <= k < i && (#[trigger] players[k]).connection.connection_id == c {
                    let k = choose|k: int|
                        0 <= k < i && (#[trigger] players[k]).connection.connection_id == c;
                    assert(k < i - 1);
                }
            }
        }
    }
}

/// Join broadcasts are `CreatePlayer` messages only.
pub proof fn lemma_create_messages_shape(
    all: Seq<PlayerEntity>,
    connection_id: u128,
    x: i64,
    y: i64,
    i: int,
)
    ensures
        no_send_tick(spec_create_player_messages_upto(all, connection_id, x, y, i)),
    decreases i,
{
    if i > 0 {
        lemma_create_messages_shape(all, connection_id, x, y, i - 1);
        let m = spec_create_messages_for(all[i - 1], connection_id, x, y);
        assert(no_send_tick(m)) by {
            assert forall|k: int| 0 <= k < m.len() implies !(#[trigger] m[k]
                matches WorldToServer::SendTick { .. }) by {
                assert(k == 0 || k == 1);
            }
        }
        lemma_no_send_tick_concat(
            spec_create_player_messages_upto(all, connection_id, x, y, i - 1),
            m,
        );
    }
}

/// The position broadcast consists of `UpdatePlayerPosition` messages
/// only.
pub proof fn lemma_broadcast_row_shape(players: Seq<PlayerEntity>, receiver: u128, j: int)
    ensures
        no_send_tick(spec_broadcast_row_upto(players, receiver, j)),
        no_create_player(spec_broadcast_row_upto(players, receiver, j)),
    decreases j,
{
    if j > 0 {
        lemma_broadcast_row_shape(players, receiver, j - 1);
        let m = seq![
            WorldToServer::UpdatePlayerPosition {
                receiver_connection_id: receiver,
                connection_id: players[j - 1].connection.connection_id,
                x: players[j - 1].position.x,
                y: players[j - 1].position.y,
            },
        ];
        lemma_no_send_tick_concat(spec_broadcast_row_upto(players, receiver, j - 1), m);
        lemma_no_create_player_concat(spec_broadcast_row_upto(players, receiver, j - 1), m);
    }
}

/// The whole position broadcast consists of `UpdatePlayerPosition`
/// messages only.
pub proof fn lemma_broadcast_shape(players: Seq<PlayerEntity>, i: int)
    ensures
        no_send_tick(spec_broadcast_upto(players, i)),
        no_create_player(spec_broadcast_upto(players, i)),
    decreases i,
{
    if i > 0 {
        lemma_broadcast_shape(players, i - 1);
        lemma_broadcast_row_shape(
            players,
            players[i - 1].connection.connection_id,
            players.len() as int,
        );
        lemma_no_send_tick_concat(
            spec_broadcast_upto(players, i - 1),
            spec_broadcast_row(players, players[i - 1].connection.connection_id),
        );
        lemma_no_create_player_concat(
            spec_broadcast_upto(players, i - 1),
            spec_broadcast_row(players, players[i - 1].connection.connection_id),
        );
    }
}

} // verus!
