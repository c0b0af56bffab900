//! The simulated world: the tick counter singleton, the player entities,
//! and the static level geometry, owned by a single simulation task.

use vstd::prelude::*;
use crate::components::{
    coord_ok, line_ok, player_wf, Collision, CollisionLine, Connection, MoveTarget, MovementType,
    Player, PlayerCollision, PlayerEntity, PlayerMove, PlayerState, Position, State, Tick,
    Velocity, COORD_UNIT, MOVE_SPEED, PLAYER_RADIUS, SPAWN_X, SPAWN_Y,
};
use crate::messages::{
    count_send_tick_to, lemma_count_send_tick_concat, lemma_count_send_tick_zero,
    lemma_no_create_player_concat, lemma_no_send_tick_concat, lemma_send_ticks_carry_concat,
    no_create_player, no_send_tick, send_ticks_carry, ServerToWorld, WorldToServer,
};
use crate::systems::{
    apply_velocity, broadcast_positions, create_player, handle_state, input_click_pressed,
    lemma_broadcast_shape, lemma_count_tick_messages, lemma_create_messages_shape,
    lemma_tick_messages_shape, spec_apply_velocity_players, spec_broadcast_messages,
    spec_create_player_messages, spec_handle_state_players, spec_input_click,
    spec_input_click_from, spec_tick_messages, spec_update_state_players, update_state,
    update_tick,
};

verus! {

/// The whole authoritative world state. Only the simulation mutates it;
/// the network relay sees events, never this state.
#[derive(Debug)]
pub struct ServerWorld {
    pub tick: Tick,
    pub players: Vec<PlayerEntity>,
    pub collision: Collision,
}

impl ServerWorld {
    /// World invariant: every player entity is well formed, connection ids
    /// are unique across live entities, and every wall segment is in range.
    pub open spec fn wf(self) -> bool {
        &&& forall|i: int| 0 <= i < self.players@.len() ==> player_wf(#[trigger] self.players@[i])
        &&& forall|i: int, j: int|
            0 <= i < j < self.players@.len() ==> #[trigger] self.players@[i].connection.connection_id
                != #[trigger] self.players@[j].connection.connection_id
        &&& forall|i: int|
            0 <= i < self.collision.collision_lines@.len() ==> line_ok(
                #[trigger] self.collision.collision_lines@[i],
            )
    }

    /// Creates the world at tick zero with no players and the given static
    /// level geometry.
    pub fn new(collision_lines: Vec<CollisionLine>) -> (w: ServerWorld)
        requires
            forall|i: int| 0 <= i < collision_lines@.len() ==> line_ok(#[trigger] collision_lines@[i]),
        ensures
            w.tick.tick == 0,
            w.players@.len() == 0,
            w.collision.collision_lines@ == collision_lines@,
            w.wf(),
    {
        ServerWorld {
            tick: Tick { tick: 0 },
            players: Vec::new(),
            collision: Collision { collision_lines },
        }
    }
}

/// The wall segments of the standard level, in coordinate subunits.
pub open spec fn spec_default_collision_lines() -> Seq<CollisionLine> {
    seq![
        CollisionLine {
            x1: (192 * COORD_UNIT) as i64,
            y1: (128 * COORD_UNIT) as i64,
            x2: (320 * COORD_UNIT) as i64,
            y2: (128 * COORD_UNIT) as i64,
        },
        CollisionLine {
            x1: (320 * COORD_UNIT) as i64,
            y1: (128 * COORD_UNIT) as i64,
            x2: (320 * COORD_UNIT) as i64,
            y2: (256 * COORD_UNIT) as i64,
        },
        CollisionLine {
            x1: (320 * COORD_UNIT) as i64,
            y1: (256 * COORD_UNIT) as i64,
            x2: (296 * COORD_UNIT) as i64,
            y2: (208 * COORD_UNIT) as i64,
        },
        CollisionLine {
            x1: (296 * COORD_UNIT) as i64,
            y1: (208 * COORD_UNIT) as i64,
            x2: (248 * COORD_UNIT) as i64,
            y2: (256 * COORD_UNIT) as i64,
        },
    ]
}

/// Builds the standard level geometry.
pub fn default_collision_lines() -> (r: Vec<CollisionLine>)
    ensures
        r@ == spec_default_collision_lines(),
        forall|i: int| 0 <= i < r@.len() ==> line_ok(#[trigger] r@[i]),
{
    let mut lines: Vec<CollisionLine> = Vec::new();
    lines.push(CollisionLine { x1: 192 * COORD_UNIT, y1: 128 * COORD_UNIT, x2: 320 * COORD_UNIT, y2: 128 * COORD_UNIT });
    lines.push(CollisionLine { x1: 320 * COORD_UNIT, y1: 128 * COORD_UNIT, x2: 320 * COORD_UNIT, y2: 256 * COORD_UNIT });
    lines.push(CollisionLine { x1: 320 * COORD_UNIT, y1: 256 * COORD_UNIT, x2: 296 * COORD_UNIT, y2: 208 * COORD_UNIT });
    lines.push(CollisionLine { x1: 296 * COORD_UNIT, y1: 208 * COORD_UNIT, x2: 248 * COORD_UNIT, y2: 256 * COORD_UNIT });
    proof {
        assert(lines@ =~= spec_default_collision_lines());
    }
    lines
}

/// The entity a `PlayerJoined` event spawns: at the given position, idle,
/// with zero velocity, the target on the spawn point, and the standard
/// movement tuning.
pub open spec fn spawned_player(connection_id: u128, x: i64, y: i64) -> PlayerEntity {
    PlayerEntity {
        player: Player,
        connection: Connection { connection_id },
        state: State { state: PlayerState::Idle },
        position: Position { x, y },
        velocity: Velocity { x: 0, y: 0 },
        move_target: MoveTarget { x, y },
        player_collision: PlayerCollision { radius: PLAYER_RADIUS, offset_x: 0, offset_y: 0 },
        player_move: PlayerMove {
            move_speed: MOVE_SPEED,
            move_input_type: MovementType::Target,
            timer: 0,
        },
    }
}

/// Some live entity carries this connection id.
pub open spec fn has_connection(players: Seq<PlayerEntity>, c: u128) -> bool {
    exists|k: int|
        0 <= k < players.len() && (#[trigger] players[k]).connection.connection_id == c
}

/// Some event before index `i` is a join for this connection id.
pub open spec fn joined_before(events: Seq<ServerToWorld>, i: int, c: u128) -> bool {
    exists|j: int| 0 <= j < i && #[trigger] events[j] == (ServerToWorld::PlayerJoined { connection_id: c })
}

/// Click coordinates the simulation accepts.
pub open spec fn spec_event_coords_ok(e: ServerToWorld) -> bool {
    match e {
        ServerToWorld::PlayerJoined { .. } => true,
        ServerToWorld::InputClickPressed { connection_id: _, x, y } => coord_ok(x) && coord_ok(y),
    }
}

/// A batch of drained events the simulation accepts: click coordinates in
/// range, and every joining connection id fresh -- absent from the live
/// entities and not joined twice within the batch. The transport allocates
/// ids, so this is its guarantee restated.
pub open spec fn spec_events_ok(players: Seq<PlayerEntity>, events: Seq<ServerToWorld>) -> bool {
    &&& forall|i: int| 0 <= i < events.len() ==> spec_event_coords_ok(#[trigger] events[i])
    &&& forall|i: int|
        0 <= i < events.len() ==> (#[trigger] events[i] matches ServerToWorld::PlayerJoined {
            connection_id,
        } ==> !has_connection(players, connection_id) && !joined_before(events, i, connection_id))
}

/// The players and the queued messages after applying the drained events
/// from index `i` on, in order: a join spawns an entity at the spawn point
/// and queues the join broadcasts; a click moves the matching player's
/// target.
pub open spec fn spec_apply_events(
    players: Seq<PlayerEntity>,
    events: Seq<ServerToWorld>,
    i: int,
) -> (Seq<PlayerEntity>, Seq<WorldToServer>)
    decreases events.len() - i,
{
    if i < 0 || i >= events.len() {
        (players, Seq::empty())
    } else {
        match events[i] {
            ServerToWorld::PlayerJoined { connection_id } => {
                let msgs = spec_create_player_messages(players, connection_id, SPAWN_X, SPAWN_Y);
                let rec = spec_apply_events(
                    players.push(spawned_player(connection_id, SPAWN_X, SPAWN_Y)),
                    events,
                    i + 1,
                );
                (rec.0, msgs + rec.1)
            },
            ServerToWorld::InputClickPressed { connection_id, x, y } => spec_apply_events(
                spec_input_click(players, connection_id, x, y),
                events,
                i + 1,
            ),
        }
    }
}

/// A click input changes no entity's connection component.
proof fn lemma_input_click_same_connections(
    players: Seq<PlayerEntity>,
    connection_id: u128,
    x: i64,
    y: i64,
    i: int,
)
    ensures
        spec_input_click_from(players, connection_id, x, y, i).len() == players.len(),
        forall|k: int|
            0 <= k < players.len() ==> (#[trigger] spec_input_click_from(
                players,
                connection_id,
                x,
                y,
                i,
            )[k]).connection == players[k].connection,
    decreases players.len() - i,
{
    if 0 <= i < players.len() && players[i].connection.connection_id != connection_id {
        lemma_input_click_same_connections(players, connection_id, x, y, i + 1);
    }
}

/// The players after one whole scheduler iteration: the drained events
/// applied in order, then the state transition, the movement system with
/// wall sliding, and the integration, in that fixed order.
pub open spec fn spec_step_players(w: ServerWorld, events: Seq<ServerToWorld>) -> Seq<PlayerEntity> {
    spec_apply_velocity_players(
        spec_handle_state_players(
            spec_update_state_players(spec_apply_events(w.players@, events, 0).0),
            w.collision.collision_lines@,
        ),
    )
}

/// Every message one whole scheduler iteration queues, in order: the tick
/// broadcast to the players present at the start of the tick, then the
/// join broadcasts of the drained events, then the all-pairs position
/// broadcast of the players as they stand at the end of the tick.
pub open spec fn spec_step_messages(w: ServerWorld, events: Seq<ServerToWorld>) -> Seq<
    WorldToServer,
> {
    spec_tick_messages(w.players@, (w.tick.tick + 1) as u64) + spec_apply_events(
        w.players@,
        events,
        0,
    ).1 + spec_broadcast_messages(spec_step_players(w, events))
}

impl ServerWorld {
    /// One scheduler iteration: advances the tick counter by exactly one,
    /// queues the tick broadcast, applies every drained event in order,
    /// runs the state, movement, and integration systems, and queues the
    /// all-pairs position broadcast. The queued messages are exactly
    /// [`spec_step_messages`].
    #[verifier::loop_isolation(false)]
    pub fn step(&mut self, events: &Vec<ServerToWorld>, to_server: &mut Vec<WorldToServer>)
        requires
            old(self).wf(),
            old(self).tick.tick < u64::MAX,
            spec_events_ok(old(self).players@, events@),
        ensures
            final(self).tick.tick == old(self).tick.tick + 1,
            final(self).collision.collision_lines@ == old(self).collision.collision_lines@,
            final(self).players@ == spec_step_players(*old(self), events@),
            final(self).wf(),
            final(to_server)@ == old(to_server)@ + spec_step_messages(*old(self), events@),
    {
        let ghost orig = *old(self);
        let ghost orig_players = self.players@;
        let ghost lines = self.collision.collision_lines@;
        let ghost tick0 = self.tick.tick;
        update_tick(self, to_server);
        let ghost base1 = to_server@;
        let n = events.len();
        let mut i: usize = 0;
        while i < n
            invariant
                i <= n,
                self.wf(),
                self.tick.tick == tick0 + 1,
                self.collision.collision_lines@ == lines,
                base1.len() <= to_server@.len(),
                to_server@.subrange(0, base1.len() as int) == base1,
                spec_apply_events(orig_players, events@, 0).0 == spec_apply_events(
                    self.players@,
                    events@,
                    i as int,
                ).0,
                spec_apply_events(orig_players, events@, 0).1 == to_server@.subrange(
                    base1.len() as int,
                    to_server@.len() as int,
                ) + spec_apply_events(self.players@, events@, i as int).1,
                forall|j: int|
                    i <= j < n ==> (#[trigger] events@[j] matches ServerToWorld::PlayerJoined {
                        connection_id,
                    } ==> !has_connection(self.players@, connection_id) && !joined_before(
                        events@,
                        j,
                        connection_id,
                    )),
            decreases n - i,
        {
            let ghost prev_players = self.players@;
            let ghost prev_out = to_server@;
            let event = events[i];
            match event {
                ServerToWorld::PlayerJoined { connection_id } => {
                    proof {
                        assert(!has_connection(self.players@, connection_id));
                        assert forall|k: int| 0 <= k < self.players@.len() implies (
                        #[trigger] self.players@[k]).connection.connection_id != connection_id by {
                            if self.players@[k].connection.connection_id == connection_id {
                                assert(has_connection(self.players@, connection_id));
                            }
                        }
                    }
                    create_player(self, to_server, connection_id, SPAWN_X, SPAWN_Y);
                    proof {
                        assert forall|j: int|
                            i + 1 <= j < n implies (
                        #[trigger] events@[j] matches ServerToWorld::PlayerJoined {
                            connection_id: d,
                        } ==> !has_connection(self.players@, d) && !joined_before(
                            events@,
                            j,
                            d,
                        )) by {
                            match events@[j] {
                                ServerToWorld::PlayerJoined { connection_id: d } => {
                                assert(!joined_before(events@, j, d));
                                assert(events@[i as int] == (ServerToWorld::PlayerJoined {
                                    connection_id,
                                }));
                                assert(d != connection_id) by {
                                    if d == connection_id {
                                        assert(joined_before(events@, j, d));
                                    }
                                }
                                assert(!has_connection(prev_players, d));
                                if has_connection(self.players@, d) {
                                    let k = choose|k: int|
                                        0 <= k < self.players@.len() && (
                                        #[trigger] self.players@[k]).connection.connection_id == d;
                                    if k < prev_players.len() {
                                        assert(has_connection(prev_players, d));
                                    }
                                }
                                },
                                _ => {},
                            }
                        }
                    }
                },
                ServerToWorld::InputClickPressed { connection_id, x, y } => {
                    proof {
                        assert(spec_event_coords_ok(events@[i as int]));
                    }
                    input_click_pressed(self, connection_id, x, y);
                    proof {
                        lemma_input_click_same_connections(prev_players, connection_id, x, y, 0);
                        assert forall|j: int|
                            i + 1 <= j < n implies (
                        #[trigger] events@[j] matches ServerToWorld::PlayerJoined {
                            connection_id: d,
                        } ==> !has_connection(self.players@, d) && !joined_before(
                            events@,
                            j,
                            d,
                        )) by {
                            match events@[j] {
                                ServerToWorld::PlayerJoined { connection_id: d } => {
                                    if has_connection(self.players@, d) {
                                        let k = choose|k: int|
                                            0 <= k < self.players@.len() && (
                                            #[trigger] self.players@[k]).connection.connection_id
                                                == d;
                                        assert(self.players@[k].connection
                                            == prev_players[k].connection);
                                        assert(has_connection(prev_players, d));
                                    }
                                },
                                _ => {},
                            }
                        }
                    }
                },
            }
            proof {
                let emitted_prev = prev_out.subrange(base1.len() as int, prev_out.len() as int);
                let emitted_now = to_server@.subrange(base1.len() as int, to_server@.len() as int);
                assert(to_server@.subrange(0, base1.len() as int) =~= base1);
                let added = to_server@.subrange(prev_out.len() as int, to_server@.len() as int);
                assert(emitted_now =~= emitted_prev + added);
                assert(spec_apply_events(orig_players, events@, 0).1 =~= emitted_now
                    + spec_apply_events(self.players@, events@, i + 1).1);
            }
            i = i + 1;
        }
        proof {
            assert(spec_apply_events(self.players@, events@, n as int).0 == self.players@);
            assert(spec_apply_events(self.players@, events@, n as int).1 == Seq::<
                WorldToServer,
            >::empty());
            assert(to_server@ =~= base1 + spec_apply_events(orig_players, events@, 0).1);
            assert(self.players@ == spec_apply_events(orig_players, events@, 0).0);
        }
        let ghost base2 = to_server@;
        update_state(self);
        handle_state(self);
        apply_velocity(self);
        broadcast_positions(self, to_server);
        proof {
            assert(self.players@ == spec_step_players(orig, events@));
            assert(to_server@ =~= old(to_server)@ + spec_step_messages(orig, events@));
        }
    }
}

/// Event application queues `CreatePlayer` messages only.
proof fn lemma_apply_events_no_send_tick(
    players: Seq<PlayerEntity>,
    events: Seq<ServerToWorld>,
    i: int,
)
    ensures
        no_send_tick(spec_apply_events(players, events, i).1),
    decreases events.len() - i,
{
    if 0 <= i < events.len() {
        match events[i] {
            ServerToWorld::PlayerJoined { connection_id } => {
                let all = players.push(spawned_player(connection_id, SPAWN_X, SPAWN_Y));
                lemma_create_messages_shape(
                    all,
                    connection_id,
                    SPAWN_X,
                    SPAWN_Y,
                    players.len() as int + 1,
                );
                lemma_apply_events_no_send_tick(all, events, i + 1);
                lemma_no_send_tick_concat(
                    spec_create_player_messages(players, connection_id, SPAWN_X, SPAWN_Y),
                    spec_apply_events(all, events, i + 1).1,
                );
            },
            ServerToWorld::InputClickPressed { connection_id, x, y } => {
                lemma_apply_events_no_send_tick(
                    spec_input_click(players, connection_id, x, y),
                    events,
                    i + 1,
                );
            },
        }
    }
}

/// Without a join among the drained events, event application queues
/// nothing at all.
proof fn lemma_apply_events_no_join_empty(
    players: Seq<PlayerEntity>,
    events: Seq<ServerToWorld>,
    i: int,
)
    requires
        forall|j: int|
            i <= j < events.len() ==> !(#[trigger] events[j] matches ServerToWorld::PlayerJoined {
                ..
            }),
    ensures
        spec_apply_events(players, events, i).1 == Seq::<WorldToServer>::empty(),
    decreases events.len() - i,
{
    if 0 <= i < events.len() {
        match events[i] {
            ServerToWorld::PlayerJoined { .. } => {
                assert(false);
            },
            ServerToWorld::InputClickPressed { connection_id, x, y } => {
                lemma_apply_events_no_join_empty(
                    spec_input_click(players, connection_id, x, y),
                    events,
                    i + 1,
                );
            },
        }
    }
}

/// Law: every scheduler iteration, every connection that has a live player
/// at the start of the tick is the receiver of exactly one `Tick`
/// broadcast, and every `Tick` broadcast of the iteration carries the same
/// new counter value.
pub proof fn lemma_step_tick_broadcast(w: ServerWorld, events: Seq<ServerToWorld>, c: u128)
    requires
        w.wf(),
        has_connection(w.players@, c),
    ensures
        count_send_tick_to(spec_step_messages(w, events), c) == 1,
        send_ticks_carry(spec_step_messages(w, events), (w.tick.tick + 1) as u64),
{
    let t = (w.tick.tick + 1) as u64;
    let n = w.players@.len() as int;
    let tmsgs = spec_tick_messages(w.players@, t);
    let amsgs = spec_apply_events(w.players@, events, 0).1;
    let bmsgs = spec_broadcast_messages(spec_step_players(w, events));
    lemma_count_tick_messages(w.players@, t, c, n);
    assert(count_send_tick_to(tmsgs, c) == 1);
    lemma_apply_events_no_send_tick(w.players@, events, 0);
    lemma_broadcast_shape(spec_step_players(w, events), spec_step_players(w, events).len() as int);
    lemma_count_send_tick_zero(amsgs, c);
    lemma_count_send_tick_zero(bmsgs, c);
    lemma_count_send_tick_concat(tmsgs, amsgs, c);
    lemma_count_send_tick_concat(tmsgs + amsgs, bmsgs, c);
    lemma_tick_messages_shape(w.players@, t, n);
    assert(send_ticks_carry(tmsgs, t)) by {
        assert forall|k: int| 0 <= k < tmsgs.len() implies match #[trigger] tmsgs[k] {
            WorldToServer::SendTick { receiver_connection_id: _, tick } => tick == t,
            _ => true,
        } by {
            assert(tmsgs[k] == (WorldToServer::SendTick {
                receiver_connection_id: w.players@[k].connection.connection_id,
                tick: t,
            }));
        }
    }
    assert(send_ticks_carry(amsgs, t));
    assert(send_ticks_carry(bmsgs, t));
    lemma_send_ticks_carry_concat(tmsgs, amsgs, t);
    lemma_send_ticks_carry_concat(tmsgs + amsgs, bmsgs, t);
}

/// Law: a scheduler iteration whose drained events include no
/// `PlayerJoined` queues no `CreatePlayer` broadcast -- nobody is told of
/// a player before its join event is processed.
pub proof fn lemma_step_no_join_no_create(w: ServerWorld, events: Seq<ServerToWorld>)
    requires
        forall|i: int|
            0 <= i < events.len() ==> !(#[trigger] events[i] matches ServerToWorld::PlayerJoined {
                ..
            }),
    ensures
        no_create_player(spec_step_messages(w, events)),
{
    let t = (w.tick.tick + 1) as u64;
    let n = w.players@.len() as int;
    let tmsgs = spec_tick_messages(w.players@, t);
    let amsgs = spec_apply_events(w.players@, events, 0).1;
    let bmsgs = spec_broadcast_messages(spec_step_players(w, events));
    lemma_tick_messages_shape(w.players@, t, n);
    assert(no_create_player(tmsgs)) by {
        assert forall|k: int| 0 <= k < tmsgs.len() implies !(#[trigger] tmsgs[k]
            matches WorldToServer::CreatePlayer { .. }) by {
            assert(tmsgs[k] == (WorldToServer::SendTick {
                receiver_connection_id: w.players@[k].connection.connection_id,
                tick: t,
            }));
        }
    }
    lemma_apply_events_no_join_empty(w.players@, events, 0);
    assert(no_create_player(amsgs));
    lemma_broadcast_shape(spec_step_players(w, events), spec_step_players(w, events).len() as int);
    lemma_no_create_player_concat(tmsgs, amsgs);
    lemma_no_create_player_concat(tmsgs + amsgs, bmsgs);
}

} // verus!
