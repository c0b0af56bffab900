//! Wire codec tests: exact byte layouts, round trips, and silent drops of
//! short or unknown buffers.

use uuid::Uuid;
use wt_core::client::{ClientPlayer, ClientWorld};
use wt_core::network::{
    build_create_player_datagram, build_input_click_pressed, build_tick_datagram,
    build_update_player_position_datagram, decode_input_click_pressed, decode_player_datagram,
    ClientToServerMessage, ServerToClientMessage,
};

#[test]
fn server_message_tag_round_trip() {
    let all = [
        ServerToClientMessage::Tick,
        ServerToClientMessage::CreatePlayer,
        ServerToClientMessage::UpdatePlayerPosition,
    ];
    for m in all {
        assert_eq!(ServerToClientMessage::from_u8(m.to_u8()), Some(m));
    }
    assert_eq!(ServerToClientMessage::Tick.to_u8(), 0);
    assert_eq!(ServerToClientMessage::CreatePlayer.to_u8(), 1);
    assert_eq!(ServerToClientMessage::UpdatePlayerPosition.to_u8(), 2);
    assert_eq!(ServerToClientMessage::from_u8(3), None);
    assert_eq!(ServerToClientMessage::from_u8(255), None);
}

#[test]
fn client_message_tag_round_trip() {
    assert_eq!(ClientToServerMessage::InputClickPressed.to_u8(), 0);
    assert_eq!(
        ClientToServerMessage::from_u8(0),
        Some(ClientToServerMessage::InputClickPressed)
    );
    assert_eq!(ClientToServerMessage::from_u8(1), None);
}

#[test]
fn tick_datagram_exact_bytes() {
    let bytes = build_tick_datagram(0x0807060504030201);
    assert_eq!(bytes, vec![0u8, 0x01, 0x02, 0x03, 0x04, 0x05, 0x06, 0x07, 0x08]);
}

#[test]
fn tick_datagram_round_trip() {
    let mut world = ClientWorld::new();
    world.receive_message(&build_tick_datagram(424242));
    assert_eq!(world.tick.tick, 424242);
}

#[test]
fn create_player_datagram_matches_uuid_wire_bytes() {
    let id = Uuid::from_u128(0x0123456789abcdef0011223344556677);
    let x = 100.0f32.to_bits();
    let y = 256.5f32.to_bits();
    let bytes = build_create_player_datagram(id.as_u128(), x, y);
    assert_eq!(bytes.len(), 25);
    assert_eq!(bytes[0], 1);
    assert_eq!(&bytes[1..17], id.as_bytes());
    assert_eq!(&bytes[17..21], &100.0f32.to_le_bytes());
    assert_eq!(&bytes[21..25], &256.5f32.to_le_bytes());
}

#[test]
fn player_datagram_round_trip() {
    let id = 0xfeedface_00000000_12345678_9abcdef0u128;
    let x = 12.25f32.to_bits();
    let y = (-3.5f32).to_bits();
    assert_eq!(
        decode_player_datagram(&build_create_player_datagram(id, x, y)),
        Some((id, x, y))
    );
    let bytes = build_update_player_position_datagram(id, x, y);
    assert_eq!(bytes[0], 2);
    assert_eq!(decode_player_datagram(&bytes), Some((id, x, y)));
}

#[test]
fn input_click_datagram_round_trip() {
    let x = 100.0f32.to_bits();
    let y = 110.0f32.to_bits();
    let bytes = build_input_click_pressed(x, y);
    assert_eq!(bytes.len(), 9);
    assert_eq!(bytes[0], 0);
    assert_eq!(decode_input_click_pressed(&bytes), Some((x, y)));
}

#[test]
fn short_input_click_dropped() {
    for len in 0..9usize {
        let buf = vec![0u8; len];
        assert_eq!(decode_input_click_pressed(&buf), None);
    }
}

#[test]
fn short_player_datagram_dropped() {
    for len in 0..25usize {
        let buf = vec![1u8; len];
        assert_eq!(decode_player_datagram(&buf), None);
    }
}

#[test]
fn short_buffers_leave_client_world_unchanged() {
    let mut world = ClientWorld::new();
    world.receive_message(&build_create_player_datagram(7, 0, 0));
    assert_eq!(world.players.len(), 1);
    let tick_before = world.tick.tick;

    let full = build_create_player_datagram(8, 0, 0);
    world.receive_message(&full[..24]);
    assert_eq!(world.players.len(), 1);

    let full = build_tick_datagram(99);
    world.receive_message(&full[..8]);
    assert_eq!(world.tick.tick, tick_before);

    world.receive_message(&[]);
    assert_eq!(world.players.len(), 1);
    assert_eq!(world.tick.tick, tick_before);
}

#[test]
fn unknown_tag_dropped_silently() {
    let mut world = ClientWorld::new();
    world.receive_message(&[7u8; 25]);
    assert_eq!(world.players.len(), 0);
    assert_eq!(world.tick.tick, 0);
}

#[test]
fn update_position_datagram_moves_only_matching_player() {
    let mut world = ClientWorld::new();
    world.receive_message(&build_create_player_datagram(1, 10, 20));
    world.receive_message(&build_create_player_datagram(2, 30, 40));
    world.receive_message(&build_update_player_position_datagram(2, 77, 88));
    assert_eq!(
        world.players,
        vec![
            ClientPlayer { connection_id: 1, x: 10, y: 20 },
            ClientPlayer { connection_id: 2, x: 77, y: 88 },
        ]
    );
}

#[test]
fn client_click_builds_input_datagram() {
    let world = ClientWorld::new();
    let x = 5.0f32.to_bits();
    let y = 6.0f32.to_bits();
    assert_eq!(world.input_click_pressed(x, y), build_input_click_pressed(x, y));
}
