//! Live publish/subscribe media transport: wire codec, broadcast data model,
//! session rules and relay routing.
//!
//! Everything here is plain computation on plain values. Streams, sockets,
//! timers and locks live with the caller, which feeds events in and carries
//! the resulting actions out.
pub mod api;
pub mod coding;
pub mod error;
pub mod message;
pub mod model;
pub mod publish;
pub mod relay;
pub mod session;
pub mod setup;
pub mod text;
