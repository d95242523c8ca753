//! A peer-to-peer group chat: discovery of peers on the local network, a
//! gossip mesh around named topics with signed and deduplicated messages, and
//! the decisions of the loop that joins local input with network events.
//!
//! Every function here is a step of a state machine on plain values. Sockets,
//! timers and the console belong to the program around this crate, which
//! feeds events in and carries the queued output away.

pub mod bytes;
pub mod roster;
pub mod peer;
pub mod message;
pub mod identity;
pub mod seen;
pub mod discovery;
pub mod mesh;
pub mod node;
pub mod laws;
