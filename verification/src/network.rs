//! Binary wire codec: every message is one tag byte followed by a
//! fixed-width payload. Multi-byte numeric fields are little-endian, except
//! the 16-byte connection id, which travels in big-endian (network) order.
//! Wire coordinates are opaque 32-bit scalars; the codec never interprets
//! them.

use vstd::prelude::*;
use vstd::bytes::*;

verus! {

/// Bytes of a `Tick` datagram: tag plus a 64-bit counter.
pub const TICK_DATAGRAM_LEN: usize = 9;

/// Bytes of a `CreatePlayer` or `UpdatePlayerPosition` datagram: tag plus a
/// 16-byte connection id plus two 32-bit coordinate scalars.
pub const PLAYER_DATAGRAM_LEN: usize = 25;

/// Bytes of an `InputClickPressed` datagram: tag plus two 32-bit coordinate
/// scalars.
pub const INPUT_CLICK_DATAGRAM_LEN: usize = 9;

/// Tags of messages the server sends to clients.
#[derive(Clone, Copy, Debug, PartialEq, Eq, Structural)]
pub enum ServerToClientMessage {
    Tick,
    CreatePlayer,
    UpdatePlayerPosition,
}

/// Tags of messages clients send to the server.
#[derive(Clone, Copy, Debug, PartialEq, Eq, Structural)]
pub enum ClientToServerMessage {
    InputClickPressed,
}

/// Wire tag of a server-to-client message.
pub open spec fn spec_server_message_tag(m: ServerToClientMessage) -> u8 {
    match m {
        ServerToClientMessage::Tick => 0,
        ServerToClientMessage::CreatePlayer => 1,
        ServerToClientMessage::UpdatePlayerPosition => 2,
    }
}

/// Server-to-client message recognised from a wire tag, if any.
pub open spec fn spec_server_message_from_u8(value: u8) -> Option<ServerToClientMessage> {
    match value {
        0 => Some(ServerToClientMessage::Tick),
        1 => Some(ServerToClientMessage::CreatePlayer),
        2 => Some(ServerToClientMessage::UpdatePlayerPosition),
        _ => None,
    }
}

/// Wire tag of a client-to-server message.
pub open spec fn spec_client_message_tag(m: ClientToServerMessage) -> u8 {
    match m {
        ClientToServerMessage::InputClickPressed => 0,
    }
}

/// Client-to-server message recognised from a wire tag, if any.
pub open spec fn spec_client_message_from_u8(value: u8) -> Option<ClientToServerMessage> {
    match value {
        0 => Some(ClientToServerMessage::InputClickPressed),
        _ => None,
    }
}

impl ServerToClientMessage {
    /// The message's wire tag.
    pub fn to_u8(self) -> (r: u8)
        ensures
            r == spec_server_message_tag(self),
    {
        match self {
            ServerToClientMessage::Tick => 0,
            ServerToClientMessage::CreatePlayer => 1,
            ServerToClientMessage::UpdatePlayerPosition => 2,
        }
    }

    /// The message a wire tag stands for, or `None` for an unknown tag.
    pub fn from_u8(value: u8) -> (r: Option<ServerToClientMessage>)
        ensures
            r == spec_server_message_from_u8(value),
    {
        match value {
            0 => Some(ServerToClientMessage::Tick),
            1 => Some(ServerToClientMessage::CreatePlayer),
            2 => Some(ServerToClientMessage::UpdatePlayerPosition),
            _ => None,
        }
    }
}

impl ClientToServerMessage {
    /// The message's wire tag.
    pub fn to_u8(self) -> (r: u8)
        ensures
            r == spec_client_message_tag(self),
    {
        match self {
            ClientToServerMessage::InputClickPressed => 0,
        }
    }

    /// The message a wire tag stands for, or `None` for an unknown tag.
    pub fn from_u8(value: u8) -> (r: Option<ClientToServerMessage>)
        ensures
            r == spec_client_message_from_u8(value),
    {
        match value {
            0 => Some(ClientToServerMessage::InputClickPressed),
            _ => None,
        }
    }
}

/// A 128-bit connection id as its 16 wire bytes, most significant first.
pub open spec fn spec_u128_to_be_bytes(x: u128) -> Seq<u8> {
    spec_u128_to_le_bytes(x).reverse()
}

/// The 128-bit connection id 16 wire bytes stand for, most significant
/// first.
pub open spec fn spec_u128_from_be_bytes(s: Seq<u8>) -> u128 {
    spec_u128_from_le_bytes(s.reverse())
}

/// Big-endian byte order round-trips on connection ids.
pub proof fn lemma_u128_be_round_trip(x: u128)
    ensures
        spec_u128_to_be_bytes(x).len() == 16,
        spec_u128_from_be_bytes(spec_u128_to_be_bytes(x)) == x,
{
    lemma_auto_spec_u128_to_from_le_bytes();
    assert(spec_u128_to_le_bytes(x).reverse().reverse() =~= spec_u128_to_le_bytes(x));
}

/// Writes a 128-bit value to 16 bytes, most significant first.
fn u128_to_be_bytes(x: u128) -> (r: Vec<u8>)
    ensures
        r@ == spec_u128_to_be_bytes(x),
{
    let le = u128_to_le_bytes(x);
    let mut out: Vec<u8> = Vec::new();
    let mut i: usize = 0;
    while i < 16
        invariant
            le@ == spec_u128_to_le_bytes(x),
            le@.len() == 16,
            i <= 16,
            out@.len() == i,
            forall|j: int| 0 <= j < i ==> out@[j] == le@[15 - j],
        decreases 16 - i,
    {
        out.push(le[15 - i]);
        i = i + 1;
    }
    proof {
        assert(out@ =~= spec_u128_to_le_bytes(x).reverse());
    }
    out
}

/// Reads a 128-bit value from 16 bytes, most significant first.
fn u128_from_be_bytes(s: &[u8]) -> (r: u128)
    requires
        s@.len() == 16,
    ensures
        r == spec_u128_from_be_bytes(s@),
{
    let mut rev: Vec<u8> = Vec::new();
    let mut i: usize = 0;
    while i < 16
        invariant
            s@.len() == 16,
            i <= 16,
            rev@.len() == i,
            forall|j: int| 0 <= j < i ==> rev@[j] == s@[15 - j],
        decreases 16 - i,
    {
        rev.push(s[15 - i]);
        i = i + 1;
    }
    proof {
        assert(rev@ =~= s@.reverse());
    }
    u128_from_le_bytes(rev.as_slice())
}

/// Exact bytes of a `Tick` datagram.
pub open spec fn spec_tick_datagram(tick: u64) -> Seq<u8> {
    seq![spec_server_message_tag(ServerToClientMessage::Tick)] + spec_u64_to_le_bytes(tick)
}

/// Exact bytes of a `CreatePlayer` datagram.
pub open spec fn spec_create_player_datagram(connection_id: u128, x: u32, y: u32) -> Seq<u8> {
    seq![spec_server_message_tag(ServerToClientMessage::CreatePlayer)]
        + spec_u128_to_be_bytes(connection_id) + spec_u32_to_le_bytes(x) + spec_u32_to_le_bytes(y)
}

/// Exact bytes of an `UpdatePlayerPosition` datagram.
pub open spec fn spec_update_player_position_datagram(connection_id: u128, x: u32, y: u32) -> Seq<
    u8,
> {
    seq![spec_server_message_tag(ServerToClientMessage::UpdatePlayerPosition)]
        + spec_u128_to_be_bytes(connection_id) + spec_u32_to_le_bytes(x) + spec_u32_to_le_bytes(y)
}

/// Exact bytes of an `InputClickPressed` datagram.
pub open spec fn spec_input_click_datagram(x: u32, y: u32) -> Seq<u8> {
    seq![spec_client_message_tag(ClientToServerMessage::InputClickPressed)]
        + spec_u32_to_le_bytes(x) + spec_u32_to_le_bytes(y)
}

/// Fields decoded from a `Tick` datagram, or `None` for a buffer shorter
/// than the fixed size. The tag byte is the dispatcher's concern and is not
/// re-checked here.
pub open spec fn spec_decode_tick_datagram(s: Seq<u8>) -> Option<u64> {
    if s.len() < TICK_DATAGRAM_LEN {
        None
    } else {
        Some(spec_u64_from_le_bytes(s.subrange(1, 9)))
    }
}

/// Fields decoded from the shared payload of a `CreatePlayer` or
/// `UpdatePlayerPosition` datagram, or `None` for a short buffer.
pub open spec fn spec_decode_player_datagram(s: Seq<u8>) -> Option<(u128, u32, u32)> {
    if s.len() < PLAYER_DATAGRAM_LEN {
        None
    } else {
        Some(
            (
                spec_u128_from_be_bytes(s.subrange(1, 17)),
                spec_u32_from_le_bytes(s.subrange(17, 21)),
                spec_u32_from_le_bytes(s.subrange(21, 25)),
            ),
        )
    }
}

/// Fields decoded from an `InputClickPressed` datagram, or `None` for a
/// short buffer.
pub open spec fn spec_decode_input_click(s: Seq<u8>) -> Option<(u32, u32)> {
    if s.len() < INPUT_CLICK_DATAGRAM_LEN {
        None
    } else {
        Some((spec_u32_from_le_bytes(s.subrange(1, 5)), spec_u32_from_le_bytes(s.subrange(5, 9))))
    }
}

/// Encodes a `Tick` datagram carrying the given counter.
pub fn build_tick_datagram(tick: u64) -> (r: Vec<u8>)
    ensures
        r@ == spec_tick_datagram(tick),
        r@.len() == TICK_DATAGRAM_LEN,
{
    proof {
        lemma_auto_spec_u64_to_from_le_bytes();
    }
    let mut buffer: Vec<u8> = Vec::new();
    buffer.push(ServerToClientMessage::Tick.to_u8());
    let mut tick_bytes = u64_to_le_bytes(tick);
    buffer.append(&mut tick_bytes);
    proof {
        assert(buffer@ =~= spec_tick_datagram(tick));
    }
    buffer
}

/// Encodes a `CreatePlayer` datagram for the given connection id and wire
/// coordinate scalars.
pub fn build_create_player_datagram(connection_id: u128, x: u32, y: u32) -> (r: Vec<u8>)
    ensures
        r@ == spec_create_player_datagram(connection_id, x, y),
        r@.len() == PLAYER_DATAGRAM_LEN,
{
    proof {
        lemma_auto_spec_u32_to_from_le_bytes();
        lemma_u128_be_round_trip(connection_id);
    }
    let mut buffer: Vec<u8> = Vec::new();
    buffer.push(ServerToClientMessage::CreatePlayer.to_u8());
    let mut id_bytes = u128_to_be_bytes(connection_id);
    buffer.append(&mut id_bytes);
    let mut x_bytes = u32_to_le_bytes(x);
    buffer.append(&mut x_bytes);
    let mut y_bytes = u32_to_le_bytes(y);
    buffer.append(&mut y_bytes);
    proof {
        assert(buffer@ =~= spec_create_player_datagram(connection_id, x, y));
    }
    buffer
}

/// Encodes an `UpdatePlayerPosition` datagram for the given connection id
/// and wire coordinate scalars.
pub fn build_update_player_position_datagram(connection_id: u128, x: u32, y: u32) -> (r: Vec<u8>)
    ensures
        r@ == spec_update_player_position_datagram(connection_id, x, y),
        r@.len() == PLAYER_DATAGRAM_LEN,
{
    proof {
        lemma_auto_spec_u32_to_from_le_bytes();
        lemma_u128_be_round_trip(connection_id);
    }
    let mut buffer: Vec<u8> = Vec::new();
    buffer.push(ServerToClientMessage::UpdatePlayerPosition.to_u8());
    let mut id_bytes = u128_to_be_bytes(connection_id);
    buffer.append(&mut id_bytes);
    let mut x_bytes = u32_to_le_bytes(x);
    buffer.append(&mut x_bytes);
    let mut y_bytes = u32_to_le_bytes(y);
    buffer.append(&mut y_bytes);
    proof {
        assert(buffer@ =~= spec_update_player_position_datagram(connection_id, x, y));
    }
    buffer
}

/// Encodes an `InputClickPressed` datagram for the given wire coordinate
/// scalars.
pub fn build_input_click_pressed(x: u32, y: u32) -> (r: Vec<u8>)
    ensures
        r@ == spec_input_click_datagram(x, y),
        r@.len() == INPUT_CLICK_DATAGRAM_LEN,
{
    proof {
        lemma_auto_spec_u32_to_from_le_bytes();
    }
    let mut buffer: Vec<u8> = Vec::new();
    buffer.push(ClientToServerMessage::InputClickPressed.to_u8());
    let mut x_bytes = u32_to_le_bytes(x);
    buffer.append(&mut x_bytes);
    let mut y_bytes = u32_to_le_bytes(y);
    buffer.append(&mut y_bytes);
    proof {
        assert(buffer@ =~= spec_input_click_datagram(x, y));
    }
    buffer
}

/// Decodes the coordinate scalars of an `InputClickPressed` datagram, or
/// drops a buffer shorter than the fixed size.
pub fn decode_input_click_pressed(data: &[u8]) -> (r: Option<(u32, u32)>)
    ensures
        r == spec_decode_input_click(data@),
{
    if data.len() < INPUT_CLICK_DATAGRAM_LEN {
        return None;
    }
    let x = u32_from_le_bytes(&data[1..5]);
    let y = u32_from_le_bytes(&data[5..9]);
    Some((x, y))
}

/// Decodes the fields shared by `CreatePlayer` and `UpdatePlayerPosition`
/// datagrams, or drops a buffer shorter than the fixed size.
pub fn decode_player_datagram(data: &[u8]) -> (r: Option<(u128, u32, u32)>)
    ensures
        r == spec_decode_player_datagram(data@),
{
    if data.len() < PLAYER_DATAGRAM_LEN {
        return None;
    }
    let connection_id = u128_from_be_bytes(&data[1..17]);
    let x = u32_from_le_bytes(&data[17..21]);
    let y = u32_from_le_bytes(&data[21..25]);
    Some((connection_id, x, y))
}

/// Round trip: a `Tick` datagram decodes to the counter it was built from.
pub proof fn lemma_tick_datagram_round_trip(tick: u64)
    ensures
        spec_decode_tick_datagram(spec_tick_datagram(tick)) == Some(tick),
{
    lemma_auto_spec_u64_to_from_le_bytes();
    assert(spec_tick_datagram(tick).subrange(1, 9) =~= spec_u64_to_le_bytes(tick));
}

/// Round trip: a `CreatePlayer` datagram decodes to the fields it was built
/// from.
pub proof fn lemma_create_player_datagram_round_trip(connection_id: u128, x: u32, y: u32)
    ensures
        spec_decode_player_datagram(spec_create_player_datagram(connection_id, x, y)) == Some(
            (connection_id, x, y),
        ),
{
    lemma_auto_spec_u32_to_from_le_bytes();
    lemma_u128_be_round_trip(connection_id);
    let s = spec_create_player_datagram(connection_id, x, y);
    assert(s.subrange(1, 17) =~= spec_u128_to_be_bytes(connection_id));
    assert(s.subrange(17, 21) =~= spec_u32_to_le_bytes(x));
    assert(s.subrange(21, 25) =~= spec_u32_to_le_bytes(y));
}

/// Round trip: an `UpdatePlayerPosition` datagram decodes to the fields it
/// was built from.
pub proof fn lemma_update_player_position_datagram_round_trip(connection_id: u128, x: u32, y: u32)
    ensures
        spec_decode_player_datagram(spec_update_player_position_datagram(connection_id, x, y))
            == Some((connection_id, x, y)),
{
    lemma_auto_spec_u32_to_from_le_bytes();
    lemma_u128_be_round_trip(connection_id);
    let s = spec_update_player_position_datagram(connection_id, x, y);
    assert(s.subrange(1, 17) =~= spec_u128_to_be_bytes(connection_id));
    assert(s.subrange(17, 21) =~= spec_u32_to_le_bytes(x));
    assert(s.subrange(21, 25) =~= spec_u32_to_le_bytes(y));
}

/// Round trip: an `InputClickPressed` datagram decodes to the scalars it was
/// built from.
pub proof fn lemma_input_click_datagram_round_trip(x: u32, y: u32)
    ensures
        spec_decode_input_click(spec_input_click_datagram(x, y)) == Some((x, y)),
{
    lemma_auto_spec_u32_to_from_le_bytes();
    let s = spec_input_click_datagram(x, y);
    assert(s.subrange(1, 5) =~= spec_u32_to_le_bytes(x));
    assert(s.subrange(5, 9) =~= spec_u32_to_le_bytes(y));
}

} // verus!
