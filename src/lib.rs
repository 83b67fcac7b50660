//! A Media-over-QUIC Transfork session engine: the handshake rules, the
//! track/group/frame cache that fans data out to readers, the state cell and
//! queue primitives it is built on, and the wire codec of its messages.
pub mod buffer;
pub mod error;
pub mod setup;
pub mod state;
pub mod queue;
pub mod group;
pub mod track;
pub mod subscriber;
pub mod coding;
pub mod message;
pub mod subscribed;
pub mod catalog;
