//! Events carried over the message bridge between the network relay and the
//! world simulation. Coordinates are world-space fixed-point subunits;
//! connection ids are the 128-bit session identifiers.

use vstd::prelude::*;

verus! {

/// Events the network relay hands to the world simulation.
#[derive(Clone, Copy, Debug, PartialEq, Eq, Structural)]
pub enum ServerToWorld {
    PlayerJoined { connection_id: u128 },
    InputClickPressed { connection_id: u128, x: i64, y: i64 },
}

/// Events the world simulation hands to the network relay, each addressed
/// to one receiving connection.
#[derive(Clone, Copy, Debug, PartialEq, Eq, Structural)]
pub enum WorldToServer {
    SendTick { receiver_connection_id: u128, tick: u64 },
    CreatePlayer { receiver_connection_id: u128, connection_id: u128, x: i64, y: i64 },
    UpdatePlayerPosition { receiver_connection_id: u128, connection_id: u128, x: i64, y: i64 },
}

/// The transport channel an outbound event travels on.
#[derive(Clone, Copy, Debug, PartialEq, Eq, Structural)]
pub enum OutboundChannel {
    /// Unreliable, unordered; for latency-sensitive updates that tolerate
    /// loss.
    Datagram,
    /// A unidirectional stream; for creation events that need ordering
    /// relative to later updates.
    UniStream,
}

/// The channel the relay sends an outbound event on: entity creation goes
/// over a stream, tick and position updates over datagrams.
pub open spec fn spec_outbound_channel(msg: WorldToServer) -> OutboundChannel {
    match msg {
        WorldToServer::SendTick { .. } => OutboundChannel::Datagram,
        WorldToServer::CreatePlayer { .. } => OutboundChannel::UniStream,
        WorldToServer::UpdatePlayerPosition { .. } => OutboundChannel::Datagram,
    }
}

/// Picks the transport channel for an outbound event.
pub fn outbound_channel(msg: &WorldToServer) -> (r: OutboundChannel)
    ensures
        r == spec_outbound_channel(*msg),
{
    match msg {
        WorldToServer::SendTick { .. } => OutboundChannel::Datagram,
        WorldToServer::CreatePlayer { .. } => OutboundChannel::UniStream,
        WorldToServer::UpdatePlayerPosition { .. } => OutboundChannel::Datagram,
    }
}

/// How many `SendTick` messages in the sequence are addressed to `c`.
pub open spec fn count_send_tick_to(s: Seq<WorldToServer>, c: u128) -> nat
    decreases s.len(),
{
    if s.len() == 0 {
        0
    } else {
        (match s[0] {
            WorldToServer::SendTick { receiver_connection_id, tick: _ } => if receiver_connection_id
                == c {
                1nat
            } else {
                0nat
            },
            _ => 0nat,
        }) + count_send_tick_to(s.drop_first(), c)
    }
}

/// No message in the sequence is a `SendTick`.
pub open spec fn no_send_tick(s: Seq<WorldToServer>) -> bool {
    forall|k: int| 0 <= k < s.len() ==> !(#[trigger] s[k] matches WorldToServer::SendTick { .. })
}

/// No message in the sequence is a `CreatePlayer`.
pub open spec fn no_create_player(s: Seq<WorldToServer>) -> bool {
    forall|k: int|
        0 <= k < s.len() ==> !(#[trigger] s[k] matches WorldToServer::CreatePlayer { .. })
}

/// Every `SendTick` in the sequence carries the counter value `t`.
pub open spec fn send_ticks_carry(s: Seq<WorldToServer>, t: u64) -> bool {
    forall|k: int|
        0 <= k < s.len() ==> match #[trigger] s[k] {
            WorldToServer::SendTick { receiver_connection_id: _, tick } => tick == t,
            _ => true,
        }
}

/// `SendTick` counting distributes over concatenation.
pub proof fn lemma_count_send_tick_concat(a: Seq<WorldToServer>, b: Seq<WorldToServer>, c: u128)
    ensures
        count_send_tick_to(a + b, c) == count_send_tick_to(a, c) + count_send_tick_to(b, c),
    decreases a.len(),
{
    if a.len() == 0 {
        assert(a + b =~= b);
    } else {
        assert((a + b).drop_first() =~= a.drop_first() + b);
        lemma_count_send_tick_concat(a.drop_first(), b, c);
    }
}

/// A sequence without `SendTick` messages counts zero for any receiver.
pub proof fn lemma_count_send_tick_zero(s: Seq<WorldToServer>, c: u128)
    requires
        no_send_tick(s),
    ensures
        count_send_tick_to(s, c) == 0,
    decreases s.len(),
{
    if s.len() > 0 {
        assert(!(s[0] matches WorldToServer::SendTick { .. }));
        assert(no_send_tick(s.drop_first())) by {
            assert forall|k: int|
                0 <= k < s.drop_first().len() implies !(#[trigger] s.drop_first()[k]
                matches WorldToServer::SendTick { .. }) by {
                assert(s.drop_first()[k] == s[k + 1]);
            }
        }
        lemma_count_send_tick_zero(s.drop_first(), c);
    }
}

/// Membership carries over from the left part of a concatenation.
pub proof fn lemma_contains_left(a: Seq<WorldToServer>, b: Seq<WorldToServer>, m: WorldToServer)
    requires
        a.contains(m),
    ensures
        (a + b).contains(m),
{
    let k = choose|k: int| 0 <= k < a.len() && a[k] == m;
    assert((a + b)[k] == m);
}

/// Concatenation keeps the absence of `SendTick` messages.
pub proof fn lemma_no_send_tick_concat(a: Seq<WorldToServer>, b: Seq<WorldToServer>)
    requires
        no_send_tick(a),
        no_send_tick(b),
    ensures
        no_send_tick(a + b),
{
    assert forall|k: int| 0 <= k < (a + b).len() implies !(#[trigger] (a + b)[k]
        matches WorldToServer::SendTick { .. }) by {
        if k < a.len() {
            assert((a + b)[k] == a[k]);
        } else {
            assert((a + b)[k] == b[k - a.len()]);
        }
    }
}

/// Concatenation keeps the absence of `CreatePlayer` messages.
pub proof fn lemma_no_create_player_concat(a: Seq<WorldToServer>, b: Seq<WorldToServer>)
    requires
        no_create_player(a),
        no_create_player(b),
    ensures
        no_create_player(a + b),
{
    assert forall|k: int| 0 <= k < (a + b).len() implies !(#[trigger] (a + b)[k]
        matches WorldToServer::CreatePlayer { .. }) by {
        if k < a.len() {
            assert((a + b)[k] == a[k]);
        } else {
            assert((a + b)[k] == b[k - a.len()]);
        }
    }
}

/// Concatenation keeps the carried tick value.
pub proof fn lemma_send_ticks_carry_concat(a: Seq<WorldToServer>, b: Seq<WorldToServer>, t: u64)
    requires
        send_ticks_carry(a, t),
        send_ticks_carry(b, t),
    ensures
        send_ticks_carry(a + b, t),
{
    assert forall|k: int| 0 <= k < (a + b).len() implies match #[trigger] (a + b)[k] {
        WorldToServer::SendTick { receiver_connection_id: _, tick } => tick == t,
        _ => true,
    } by {
        if k < a.len() {
            assert((a + b)[k] == a[k]);
        } else {
            assert((a + b)[k] == b[k - a.len()]);
        }
    }
}

} // verus!
