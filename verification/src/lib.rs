//! A node of a Chord-style distributed hash table.
//!
//! The crate holds the protocol engine of one node: identifier arithmetic on
//! a ring of `M` points, the finger table, routing, stabilization, failure
//! repair and the key store. Everything that talks to the network lives
//! outside; the engine is driven by handing it the replies of peers.

pub mod ring;
pub mod interval;
pub mod text;
pub mod keys;
pub mod finger;
pub mod node;
pub mod failure;
pub mod routing;
pub mod stabilize;
pub mod ringwalk;
pub mod forms;
pub mod peer;
pub mod extractor;
pub mod network;
