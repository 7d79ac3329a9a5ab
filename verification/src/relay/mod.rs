//! What a relay decides: where a broadcast name leads, and which name a
//! connection asks for.
pub mod origins;
pub mod path;
pub mod session;
