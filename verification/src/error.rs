//! Error kinds shared by the codec, the data model, the session and the
//! registry client.
use vstd::prelude::*;

verus! {

/// Why a broadcast, track or group stopped.
#[derive(Clone, Copy, Debug, PartialEq, Eq, Structural)]
pub enum Closed {
    /// Normal end of stream.
    Done,
    /// Peer cancellation or local drop.
    Cancel,
    /// Superseded by a newer producer for the same name.
    Replaced,
    /// The broadcast has no track of the requested name.
    UnknownTrack,
    /// The router has no broadcast of the requested name.
    NotFound,
    /// The sequence or name is already taken.
    Duplicate,
    /// Closed by the application with its own code.
    App(u32),
}

impl Closed {
    /// The number that stands for this closure on the wire.
    pub open spec fn spec_code(self) -> u32 {
        match self {
            Closed::Done => 0,
            Closed::Cancel => 1,
            Closed::Replaced => 2,
            Closed::UnknownTrack => 3,
            Closed::NotFound => 404,
            Closed::Duplicate => 409,
            Closed::App(code) => code,
        }
    }

    #[verifier::when_used_as_spec(spec_code)]
    pub fn code(self) -> (c: u32)
        ensures
            c == self.spec_code(),
    {
        match self {
            Closed::Done => 0,
            Closed::Cancel => 1,
            Closed::Replaced => 2,
            Closed::UnknownTrack => 3,
            Closed::NotFound => 404,
            Closed::Duplicate => 409,
            Closed::App(code) => code,
        }
    }
}

/// Why a byte string could not be decoded.
#[derive(Clone, Copy, Debug, PartialEq, Eq, Structural)]
pub enum DecodeError {
    /// The input ends before the field does.
    MissingField,
    /// A string field is not UTF-8.
    InvalidString,
    /// A subscribe location has an unknown kind, or an object location
    /// stands without a group location.
    InvalidSubscribeLocation,
    /// The message is malformed; the tag is the offending discriminant.
    InvalidMessage(u64),
    /// A number does not fit the field it was read for.
    BoundsExceeded,
    /// A parameter id occurs twice.
    DuplicateParam,
}

impl DecodeError {
    /// The number that stands for the error on the wire.
    pub open spec fn spec_code(self) -> u32 {
        match self {
            DecodeError::MissingField => 1,
            DecodeError::InvalidString => 2,
            DecodeError::InvalidSubscribeLocation => 3,
            DecodeError::InvalidMessage(_) => 4,
            DecodeError::BoundsExceeded => 5,
            DecodeError::DuplicateParam => 6,
        }
    }

    #[verifier::when_used_as_spec(spec_code)]
    pub fn code(self) -> (c: u32)
        ensures
            c == self.spec_code(),
    {
        match self {
            DecodeError::MissingField => 1,
            DecodeError::InvalidString => 2,
            DecodeError::InvalidSubscribeLocation => 3,
            DecodeError::InvalidMessage(_) => 4,
            DecodeError::BoundsExceeded => 5,
            DecodeError::DuplicateParam => 6,
        }
    }
}

/// Why a value could not be encoded.
#[derive(Clone, Copy, Debug, PartialEq, Eq, Structural)]
pub enum EncodeError {
    /// A field that the message kind requires is absent.
    MissingField,
    /// A number or a length is above 2^62 - 1.
    BoundsExceeded,
}

impl EncodeError {
    /// The number that stands for the error on the wire: that of the
    /// decoding error of the same name.
    pub open spec fn spec_code(self) -> u32 {
        match self {
            EncodeError::MissingField => 1,
            EncodeError::BoundsExceeded => 5,
        }
    }

    #[verifier::when_used_as_spec(spec_code)]
    pub fn code(self) -> (c: u32)
        ensures
            c == self.spec_code(),
    {
        match self {
            EncodeError::MissingField => 1,
            EncodeError::BoundsExceeded => 5,
        }
    }
}

} // verus!
