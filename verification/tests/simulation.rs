//! Simulation tests: the tick scheduler, join handling, click-to-move,
//! wall sliding, and the per-tick broadcasts.

use wt_core::components::{PlayerState, COORD_UNIT, MOVE_SPEED, SPAWN_X, SPAWN_Y};
use wt_core::messages::{outbound_channel, OutboundChannel, ServerToWorld, WorldToServer};
use wt_core::scripts::{div_trunc_i128, isqrt_ceil_u128, isqrt_u128};
use wt_core::systems::create_player;
use wt_core::world::{default_collision_lines, ServerWorld};

fn world_with_default_level() -> ServerWorld {
    ServerWorld::new(default_collision_lines())
}

fn step(world: &mut ServerWorld, events: Vec<ServerToWorld>) -> Vec<WorldToServer> {
    let mut out = Vec::new();
    world.step(&events, &mut out);
    out
}

#[test]
fn tick_advances_by_one_each_iteration() {
    let mut world = world_with_default_level();
    assert_eq!(world.tick.tick, 0);
    for expected in 1..=100u64 {
        step(&mut world, vec![]);
        assert_eq!(world.tick.tick, expected);
    }
}

#[test]
fn join_spawns_idle_player_at_spawn_point() {
    let mut world = world_with_default_level();
    let out = step(&mut world, vec![ServerToWorld::PlayerJoined { connection_id: 11 }]);
    assert_eq!(world.players.len(), 1);
    let p = &world.players[0];
    assert_eq!(p.connection.connection_id, 11);
    assert_eq!((p.position.x, p.position.y), (SPAWN_X, SPAWN_Y));
    assert_eq!((p.velocity.x, p.velocity.y), (0, 0));
    assert_eq!((p.move_target.x, p.move_target.y), (SPAWN_X, SPAWN_Y));
    assert_eq!(p.state.state, PlayerState::Idle);
    assert_eq!(p.player_move.move_speed, MOVE_SPEED);
    let creates: Vec<&WorldToServer> = out
        .iter()
        .filter(|m| matches!(m, WorldToServer::CreatePlayer { .. }))
        .collect();
    assert_eq!(
        creates,
        vec![&WorldToServer::CreatePlayer {
            receiver_connection_id: 11,
            connection_id: 11,
            x: SPAWN_X,
            y: SPAWN_Y,
        }]
    );
}

#[test]
fn no_create_player_broadcast_without_join() {
    let mut world = world_with_default_level();
    step(&mut world, vec![ServerToWorld::PlayerJoined { connection_id: 5 }]);
    let out = step(
        &mut world,
        vec![ServerToWorld::InputClickPressed { connection_id: 5, x: 0, y: 0 }],
    );
    assert!(out
        .iter()
        .all(|m| !matches!(m, WorldToServer::CreatePlayer { .. })));
}

#[test]
fn both_joiners_learn_of_both_players_in_order() {
    let mut world = world_with_default_level();
    let out = step(
        &mut world,
        vec![
            ServerToWorld::PlayerJoined { connection_id: 100 },
            ServerToWorld::PlayerJoined { connection_id: 200 },
        ],
    );
    let to = |receiver: u128| -> Vec<(u128, i64, i64)> {
        out.iter()
            .filter_map(|m| match m {
                WorldToServer::CreatePlayer { receiver_connection_id, connection_id, x, y }
                    if *receiver_connection_id == receiver =>
                {
                    Some((*connection_id, *x, *y))
                }
                _ => None,
            })
            .collect()
    };
    // The pre-existing connection learns of the new player; the new
    // connection learns of every existing player and of itself.
    assert_eq!(to(100), vec![(100, SPAWN_X, SPAWN_Y), (200, SPAWN_X, SPAWN_Y)]);
    assert_eq!(to(200), vec![(100, SPAWN_X, SPAWN_Y), (200, SPAWN_X, SPAWN_Y)]);
}

#[test]
fn click_moves_player_two_units_per_tick_then_idle() {
    let mut world = world_with_default_level();
    let mut out = Vec::new();
    // A player standing at (100, 100) world units over open ground.
    create_player(&mut world, &mut out, 42, 100 * COORD_UNIT, 100 * COORD_UNIT);
    // Click at (100, 110): ten world units straight down the y axis.
    step(
        &mut world,
        vec![ServerToWorld::InputClickPressed {
            connection_id: 42,
            x: 100 * COORD_UNIT,
            y: 110 * COORD_UNIT,
        }],
    );
    assert_eq!(world.players[0].position.y, 102 * COORD_UNIT);
    for tick in 2..=5i64 {
        step(&mut world, vec![]);
        assert_eq!(world.players[0].position.x, 100 * COORD_UNIT);
        assert_eq!(world.players[0].position.y, (100 + 2 * tick) * COORD_UNIT);
    }
    assert_eq!(world.players[0].position.y, 110 * COORD_UNIT);
    // Distance is now exactly zero, so the player idles and stays put.
    for _ in 0..3 {
        step(&mut world, vec![]);
        assert_eq!(world.players[0].state.state, PlayerState::Idle);
        assert_eq!(world.players[0].position.y, 110 * COORD_UNIT);
    }
}

#[test]
fn head_on_wall_stops_player_before_the_segment() {
    let mut world = world_with_default_level();
    // Spawn at (256, 192); the standard level has a horizontal wall from
    // (192, 128) to (320, 128).
    step(&mut world, vec![ServerToWorld::PlayerJoined { connection_id: 9 }]);
    // Click far on the other side of the wall, straight up the y axis.
    step(
        &mut world,
        vec![ServerToWorld::InputClickPressed {
            connection_id: 9,
            x: 256 * COORD_UNIT,
            y: 64 * COORD_UNIT,
        }],
    );
    for _ in 0..100 {
        step(&mut world, vec![]);
        let p = &world.players[0];
        assert_eq!(p.position.x, 256 * COORD_UNIT);
        // Never on the far side of the segment; the collider radius of 16
        // world units keeps the center at y >= 144.
        assert!(p.position.y >= 144 * COORD_UNIT);
    }
    // Contact counted as arrival: stopped flush against the wall.
    assert_eq!(world.players[0].position.y, 144 * COORD_UNIT);
    assert_eq!(world.players[0].state.state, PlayerState::Idle);
}

#[test]
fn diagonal_wall_contact_keeps_tangential_component() {
    let mut world = world_with_default_level();
    // Spawn at (256, 192) and click up-left across the horizontal wall:
    // the slide removes the normal (y) component and keeps x motion.
    step(&mut world, vec![ServerToWorld::PlayerJoined { connection_id: 3 }]);
    step(
        &mut world,
        vec![ServerToWorld::InputClickPressed {
            connection_id: 3,
            x: 200 * COORD_UNIT,
            y: 64 * COORD_UNIT,
        }],
    );
    let mut slid_along_wall = false;
    for _ in 0..100 {
        step(&mut world, vec![]);
        let p = &world.players[0];
        assert!(p.position.y >= 144 * COORD_UNIT);
        if p.velocity.x != 0 && p.velocity.y == 0 {
            slid_along_wall = true;
        }
    }
    assert!(slid_along_wall);
}

#[test]
fn every_connection_gets_exactly_one_tick_broadcast() {
    let mut world = world_with_default_level();
    step(&mut world, vec![ServerToWorld::PlayerJoined { connection_id: 1 }]);
    step(&mut world, vec![ServerToWorld::PlayerJoined { connection_id: 2 }]);
    let out = step(&mut world, vec![]);
    let tick_now = world.tick.tick;
    for receiver in [1u128, 2u128] {
        let ticks: Vec<u64> = out
            .iter()
            .filter_map(|m| match m {
                WorldToServer::SendTick { receiver_connection_id, tick }
                    if *receiver_connection_id == receiver =>
                {
                    Some(*tick)
                }
                _ => None,
            })
            .collect();
        assert_eq!(ticks, vec![tick_now]);
    }
}

#[test]
fn position_broadcast_is_all_pairs() {
    let mut world = world_with_default_level();
    step(&mut world, vec![ServerToWorld::PlayerJoined { connection_id: 1 }]);
    step(&mut world, vec![ServerToWorld::PlayerJoined { connection_id: 2 }]);
    let out = step(&mut world, vec![]);
    let updates: Vec<(u128, u128)> = out
        .iter()
        .filter_map(|m| match m {
            WorldToServer::UpdatePlayerPosition { receiver_connection_id, connection_id, .. } => {
                Some((*receiver_connection_id, *connection_id))
            }
            _ => None,
        })
        .collect();
    assert_eq!(updates, vec![(1, 1), (1, 2), (2, 1), (2, 2)]);
}

#[test]
fn click_for_unknown_connection_changes_nothing() {
    let mut world = world_with_default_level();
    step(&mut world, vec![ServerToWorld::PlayerJoined { connection_id: 1 }]);
    let before = world.players.clone();
    step(
        &mut world,
        vec![ServerToWorld::InputClickPressed { connection_id: 77, x: 0, y: 0 }],
    );
    assert_eq!(world.players[0].move_target, before[0].move_target);
}

#[test]
fn outbound_events_pick_the_documented_channel() {
    let tick = WorldToServer::SendTick { receiver_connection_id: 1, tick: 5 };
    let create = WorldToServer::CreatePlayer {
        receiver_connection_id: 1,
        connection_id: 2,
        x: 0,
        y: 0,
    };
    let update = WorldToServer::UpdatePlayerPosition {
        receiver_connection_id: 1,
        connection_id: 2,
        x: 0,
        y: 0,
    };
    assert_eq!(outbound_channel(&tick), OutboundChannel::Datagram);
    assert_eq!(outbound_channel(&create), OutboundChannel::UniStream);
    assert_eq!(outbound_channel(&update), OutboundChannel::Datagram);
}

#[test]
fn default_level_has_four_wall_segments() {
    let lines = default_collision_lines();
    assert_eq!(lines.len(), 4);
    assert_eq!(
        (lines[0].x1, lines[0].y1, lines[0].x2, lines[0].y2),
        (192 * COORD_UNIT, 128 * COORD_UNIT, 320 * COORD_UNIT, 128 * COORD_UNIT)
    );
}

#[test]
fn integer_square_roots_are_exact() {
    assert_eq!(isqrt_u128(0), 0);
    assert_eq!(isqrt_u128(1), 1);
    assert_eq!(isqrt_u128(15), 3);
    assert_eq!(isqrt_u128(16), 4);
    assert_eq!(isqrt_u128(17), 4);
    assert_eq!(isqrt_u128(1 << 62), 1 << 31);
    assert_eq!(isqrt_ceil_u128(16), 4);
    assert_eq!(isqrt_ceil_u128(17), 5);
    assert_eq!(isqrt_ceil_u128(0), 0);
}

#[test]
fn division_truncates_toward_zero() {
    assert_eq!(div_trunc_i128(7, 2), 3);
    assert_eq!(div_trunc_i128(-7, 2), -3);
    assert_eq!(div_trunc_i128(0, 5), 0);
    assert_eq!(div_trunc_i128(-1, 5), 0);
}
