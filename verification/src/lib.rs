//! Can Network Layer: schema-driven decoding and encoding of CAN payloads,
//! role-based dispatch of received frames onto a live model of the network,
//! and the state machine that sets up a connection.
//!
//! - [`bits`]: bit ranges of the 64-bit payload word.
//! - [`schema`]: value types and messages of a network description.
//! - [`frame`]: raw frames and decoded frames with their value trees.
//! - [`codec`]: decoding and encoding, and the proof that encoding inverts
//!   decoding.
//! - [`wire`]: the flat, dotted-path form of a decoded frame.
//! - [`network`]: the live model, an arena of object entries.
//! - [`handler`]: the handlers of received frames.
//! - [`rx`]: identifier folding, the table of handlers, and dispatch.
//! - [`tx`]: routing of outgoing values.
//! - [`can_adapter`]: what an adapter decides between transport and queues.
//! - [`startup`]: the set-up of a connection.
//! - [`information`]: queries on the model.
//! - [`layer`]: the layer as a whole.
//!
//! Decimals are carried as raw integers beside the bit patterns of their
//! scale and offset; the number meant is `raw * scale + offset`, and the
//! arithmetic on it is left to the caller.

pub mod bits;
pub mod schema;
pub mod frame;
pub mod codec;
pub mod network;
pub mod handler;
pub mod rx;
pub mod startup;
pub mod information;
pub mod wire;
pub mod tx;
pub mod can_adapter;
pub mod layer;
