//! The broadcast, track, group and frame model.
//!
//! Producers and consumers do not share memory. The state that they share
//! lives in cells of a [`hub::Hub`]; a producer or consumer is a small handle
//! that names a cell, and every operation takes the hub. Nothing here waits:
//! where a consumer would wait for news, the answer is `Poll::Pending` and
//! the caller asks again after the hub has changed.
pub mod broadcast;
pub mod directory;
pub mod frame;
pub mod group;
pub mod hub;
pub mod laws;
pub mod track;
