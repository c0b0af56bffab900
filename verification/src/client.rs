//! The client-side mirror of the world: a tick counter and the players the
//! server has announced, kept current by decoding server datagrams. The
//! client does no world-space arithmetic, so it stores coordinates as the
//! opaque 32-bit wire scalars they arrive in; rendering interprets them
//! outside this crate.

use vstd::prelude::*;
use vstd::bytes::u64_from_le_bytes;
use crate::components::{Collision, Tick};
use crate::network::{
    build_input_click_pressed, spec_decode_player_datagram, spec_decode_tick_datagram,
    spec_input_click_datagram, spec_server_message_from_u8, ServerToClientMessage,
    PLAYER_DATAGRAM_LEN, TICK_DATAGRAM_LEN,
};
use crate::world::default_collision_lines;

verus! {

/// One player as the client mirrors it: its connection id and the wire
/// coordinate scalars last received for it.
#[derive(Clone, Copy, Debug, PartialEq, Eq, Structural)]
pub struct ClientPlayer {
    pub connection_id: u128,
    pub x: u32,
    pub y: u32,
}

/// The client's mirror of the world.
#[derive(Debug)]
pub struct ClientWorld {
    pub tick: Tick,
    pub players: Vec<ClientPlayer>,
    pub collision: Collision,
}

/// Advances the client's tick counter by exactly one.
pub fn update_tick(world: &mut ClientWorld)
    requires
        old(world).tick.tick < u64::MAX,
    ensures
        final(world).tick.tick == old(world).tick.tick + 1,
        final(world).players@ == old(world).players@,
        final(world).collision.collision_lines@ == old(world).collision.collision_lines@,
{
    world.tick.tick = world.tick.tick + 1;
}

/// Adds a newly announced player to the client's mirror.
pub fn create_player(world: &mut ClientWorld, connection_id: u128, x: u32, y: u32)
    ensures
        final(world).players@ == old(world).players@.push(ClientPlayer { connection_id, x, y }),
        final(world).tick == old(world).tick,
        final(world).collision.collision_lines@ == old(world).collision.collision_lines@,
{
    world.players.push(ClientPlayer { connection_id, x, y });
}

/// The client's players after a position update: every player carrying the
/// connection id takes the new coordinates; the rest are untouched.
pub open spec fn spec_update_position(
    players: Seq<ClientPlayer>,
    connection_id: u128,
    x: u32,
    y: u32,
) -> Seq<ClientPlayer> {
    Seq::new(
        players.len(),
        |i: int|
            if players[i].connection_id == connection_id {
                ClientPlayer { connection_id, x, y }
            } else {
                players[i]
            },
    )
}

/// Moves the mirrored position of the player with the given connection id.
#[verifier::loop_isolation(false)]
pub fn update_position(world: &mut ClientWorld, connection_id: u128, x: u32, y: u32)
    ensures
        final(world).players@ == spec_update_position(old(world).players@, connection_id, x, y),
        final(world).tick == old(world).tick,
        final(world).collision.collision_lines@ == old(world).collision.collision_lines@,
{
    let ghost orig = world.players@;
    let n = world.players.len();
    let mut i: usize = 0;
    while i < n
        invariant
            i <= n,
            world.players@.len() == n,
            world.tick == old(world).tick,
            world.collision.collision_lines@ == old(world).collision.collision_lines@,
            forall|k: int| i <= k < n ==> world.players@[k] == orig[k],
            forall|k: int|
                0 <= k < i ==> world.players@[k] == spec_update_position(
                    orig,
                    connection_id,
                    x,
                    y,
                )[k],
        decreases n - i,
    {
        if world.players[i].connection_id == connection_id {
            world.players[i] = ClientPlayer { connection_id, x, y };
        }
        i = i + 1;
    }
    proof {
        assert(world.players@ =~= spec_update_position(orig, connection_id, x, y));
    }
}

/// Decodes a `Tick` datagram into the mirrored tick counter; a buffer
/// shorter than the fixed size is dropped and changes nothing.
pub fn decode_tick_datagram(data: &[u8], world: &mut ClientWorld)
    ensures
        final(world).players@ == old(world).players@,
        final(world).collision.collision_lines@ == old(world).collision.collision_lines@,
        match spec_decode_tick_datagram(data@) {
            None => final(world).tick == old(world).tick,
            Some(t) => final(world).tick.tick == t,
        },
{
    if data.len() < TICK_DATAGRAM_LEN {
        return ;
    }
    let tick = u64_from_le_bytes(&data[1..9]);
    world.tick.tick = tick;
}

/// Decodes a `CreatePlayer` datagram and adds the announced player; a
/// buffer shorter than the fixed size is dropped and changes nothing.
pub fn decode_create_player_datagram(data: &[u8], world: &mut ClientWorld)
    ensures
        final(world).tick == old(world).tick,
        final(world).collision.collision_lines@ == old(world).collision.collision_lines@,
        match spec_decode_player_datagram(data@) {
            None => final(world).players@ == old(world).players@,
            Some((connection_id, x, y)) => final(world).players@ == old(world).players@.push(
                ClientPlayer { connection_id, x, y },
            ),
        },
{
    if data.len() < PLAYER_DATAGRAM_LEN {
        return ;
    }
    let fields = crate::network::decode_player_datagram(data);
    match fields {
        Some((connection_id, x, y)) => {
            create_player(world, connection_id, x, y);
        },
        None => {},
    }
}

/// Decodes an `UpdatePlayerPosition` datagram and moves the mirrored
/// player; a buffer shorter than the fixed size is dropped and changes
/// nothing.
pub fn decode_update_player_position_datagram(data: &[u8], world: &mut ClientWorld)
    ensures
        final(world).tick == old(world).tick,
        final(world).collision.collision_lines@ == old(world).collision.collision_lines@,
        match spec_decode_player_datagram(data@) {
            None => final(world).players@ == old(world).players@,
            Some((connection_id, x, y)) => final(world).players@ == spec_update_position(
                old(world).players@,
                connection_id,
                x,
                y,
            ),
        },
{
    if data.len() < PLAYER_DATAGRAM_LEN {
        return ;
    }
    let fields = crate::network::decode_player_datagram(data);
    match fields {
        Some((connection_id, x, y)) => {
            update_position(world, connection_id, x, y);
        },
        None => {},
    }
}

impl ClientWorld {
    /// Creates the client mirror at tick zero with no players and the
    /// standard level geometry.
    pub fn new() -> (w: ClientWorld)
        ensures
            w.tick.tick == 0,
            w.players@.len() == 0,
            w.collision.collision_lines@ == crate::world::spec_default_collision_lines(),
    {
        ClientWorld {
            tick: Tick { tick: 0 },
            players: Vec::new(),
            collision: Collision { collision_lines: default_collision_lines() },
        }
    }

    /// One client frame of the mirror: advances the local tick counter.
    /// Drawing the mirrored state is the embedder's concern.
    pub fn update(&mut self)
        requires
            old(self).tick.tick < u64::MAX,
        ensures
            final(self).tick.tick == old(self).tick.tick + 1,
            final(self).players@ == old(self).players@,
            final(self).collision.collision_lines@ == old(self).collision.collision_lines@,
    {
        update_tick(self);
    }

    /// Applies one server datagram to the mirror, dispatching on the tag
    /// byte. An empty buffer, an unknown tag, or a buffer shorter than its
    /// tag's fixed size is dropped silently and changes nothing.
    pub fn receive_message(&mut self, data: &[u8])
        ensures
            final(self).collision.collision_lines@ == old(self).collision.collision_lines@,
            data@.len() == 0 ==> final(self).tick == old(self).tick && final(self).players@ == old(
                self,
            ).players@,
            data@.len() > 0 ==> match spec_server_message_from_u8(data@[0]) {
                None => final(self).tick == old(self).tick && final(self).players@ == old(
                    self,
                ).players@,
                Some(ServerToClientMessage::Tick) => final(self).players@ == old(self).players@
                    && match spec_decode_tick_datagram(data@) {
                    None => final(self).tick == old(self).tick,
                    Some(t) => final(self).tick.tick == t,
                },
                Some(ServerToClientMessage::CreatePlayer) => final(self).tick == old(self).tick
                    && match spec_decode_player_datagram(data@) {
                    None => final(self).players@ == old(self).players@,
                    Some((connection_id, x, y)) => final(self).players@ == old(
                        self,
                    ).players@.push(ClientPlayer { connection_id, x, y }),
                },
                Some(ServerToClientMessage::UpdatePlayerPosition) => final(self).tick == old(
                    self,
                ).tick && match spec_decode_player_datagram(data@) {
                    None => final(self).players@ == old(self).players@,
                    Some((connection_id, x, y)) => final(self).players@ == spec_update_position(
                        old(self).players@,
                        connection_id,
                        x,
                        y,
                    ),
                },
            },
    {
        if data.len() == 0 {
            return ;
        }
        match ServerToClientMessage::from_u8(data[0]) {
            Some(ServerToClientMessage::Tick) => {
                decode_tick_datagram(data, self);
            },
            Some(ServerToClientMessage::CreatePlayer) => {
                decode_create_player_datagram(data, self);
            },
            Some(ServerToClientMessage::UpdatePlayerPosition) => {
                decode_update_player_position_datagram(data, self);
            },
            None => {},
        }
    }

    /// Encodes a click at the given wire coordinate scalars as an
    /// `InputClickPressed` datagram for the server.
    pub fn input_click_pressed(&self, x: u32, y: u32) -> (r: Vec<u8>)
        ensures
            r@ == spec_input_click_datagram(x, y),
    {
        build_input_click_pressed(x, y)
    }
}

} // verus!
