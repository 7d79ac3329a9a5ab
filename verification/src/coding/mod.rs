//! Wire primitives: variable-length integers, length-prefixed octets and
//! strings, and parameter dictionaries.
pub mod bytes;
pub mod code;
pub mod numbers;
pub mod params;
pub mod string;
pub mod varint;
