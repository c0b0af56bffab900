//! Server-side core of a real-time multiplayer session: a fixed-layout binary
//! wire codec, the entity components of the simulated world, and the
//! deterministic tick-step simulation (movement state machine, wall sliding,
//! integration, broadcasts) that a transport layer drives through message
//! queues.
//!
//! World-space scalars are fixed-point integers: [`components::COORD_UNIT`]
//! subunits make one world unit. The wire carries coordinates as opaque
//! 32-bit scalars; converting between the two is the caller's concern, so the
//! whole simulation stays in exact integer arithmetic.

pub mod client;
pub mod components;
pub mod messages;
pub mod network;
pub mod scripts;
pub mod systems;
pub mod world;
