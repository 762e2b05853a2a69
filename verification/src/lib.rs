//! Wire protocol and state-reconciliation engine for relaying human input
//! (mouse motion, buttons, scroll, keyboard) between two hosts over an
//! unreliable datagram transport.
//!
//! The library covers the pure logic of the system: packing bit sets,
//! encoding and decoding the fixed-layout wire packet, the connection
//! lifecycle (handshake, acknowledgment, disconnect), the differential
//! reconciler that turns a stream of decoded snapshots into down/up/scroll
//! actions, and the sender's per-tick accumulation and send policy.
//! Socket I/O, raw input capture and synthetic input injection live outside
//! the library and exchange plain values with it.

pub mod bits;
pub mod keys;
pub mod reconcile;
pub mod sender;
pub mod session;
pub mod packet;
