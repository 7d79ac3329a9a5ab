//! The place of an object in a track, and the optional form in which
//! replies carry it: a flag, then the two numbers where the flag is 1.
use vstd::prelude::*;

use crate::coding::bytes::lemma_concat_assoc;
use crate::coding::varint::decode_varint_at;
use crate::coding::varint::encode_varint;
use crate::coding::varint::lemma_varint_round_trip;
use crate::coding::varint::spec_decode_varint;
use crate::coding::varint::spec_encode_varint;
use crate::coding::varint::VARINT_MAX;
use crate::error::DecodeError;
use crate::error::EncodeError;

verus! {

/// A group sequence number and an object number within that group.
#[derive(Clone, Copy, Debug, PartialEq, Eq, Structural)]
pub struct Position {
    pub group: u64,
    pub object: u64,
}

/// Both numbers of a present position can be encoded.
pub open spec fn spec_position_fits(p: Option<Position>) -> bool {
    p matches Some(at) ==> at.group <= VARINT_MAX && at.object <= VARINT_MAX
}

/// The flag 0 for an absent position; the flag 1, the group and the object
/// for a present one.
pub open spec fn spec_encode_position(p: Option<Position>) -> Seq<u8> {
    match p {
        None => spec_encode_varint(0),
        Some(at) => spec_encode_varint(1) + spec_encode_varint(at.group) + spec_encode_varint(
            at.object,
        ),
    }
}

/// Reads one optional position from the front of `s`; a flag above 1 gives
/// `InvalidMessage` with the flag.
pub open spec fn spec_decode_position(s: Seq<u8>) -> Result<(Option<Position>, Seq<u8>), DecodeError> {
    match spec_decode_varint(s) {
        Err(e) => Err(e),
        Ok((flag, s1)) => if flag == 0 {
            Ok((None, s1))
        } else if flag > 1 {
            Err(DecodeError::InvalidMessage(flag))
        } else {
            match spec_decode_varint(s1) {
                Err(e) => Err(e),
                Ok((group, s2)) => match spec_decode_varint(s2) {
                    Err(e) => Err(e),
                    Ok((object, rest)) => Ok((Some(Position { group, object }), rest)),
                },
            }
        },
    }
}

/// Decoding what was encoded gives the position back and leaves what
/// followed.
pub proof fn lemma_position_round_trip(p: Option<Position>, rest: Seq<u8>)
    requires
        spec_position_fits(p),
    ensures
        spec_decode_position(spec_encode_position(p) + rest) == Ok::<
            (Option<Position>, Seq<u8>),
            DecodeError,
        >((p, rest)),
{
    match p {
        None => {
            lemma_varint_round_trip(0, rest);
        },
        Some(at) => {
            let s2 = spec_encode_varint(at.object) + rest;
            let s1 = spec_encode_varint(at.group) + s2;
            lemma_concat_assoc(
                spec_encode_varint(1) + spec_encode_varint(at.group),
                spec_encode_varint(at.object),
                rest,
            );
            lemma_concat_assoc(spec_encode_varint(1), spec_encode_varint(at.group), s2);
            lemma_varint_round_trip(1, s1);
            lemma_varint_round_trip(at.group, s2);
            lemma_varint_round_trip(at.object, rest);
        },
    }
}

/// Whether both numbers of a present position can be encoded.
pub fn position_fits(p: &Option<Position>) -> (b: bool)
    ensures
        b == spec_position_fits(*p),
{
    match p {
        None => true,
        Some(at) => at.group <= VARINT_MAX && at.object <= VARINT_MAX,
    }
}

/// Appends the optional position to `out`. A number above `VARINT_MAX` is
/// refused with `BoundsExceeded` and leaves `out` as it was.
pub fn encode_position(p: &Option<Position>, out: &mut Vec<u8>) -> (r: Result<(), EncodeError>)
    ensures
        spec_position_fits(*p) ==> r is Ok && final(out)@ == old(out)@ + spec_encode_position(*p),
        !spec_position_fits(*p) ==> r == Err::<(), EncodeError>(EncodeError::BoundsExceeded)
            && final(out)@ == old(out)@,
{
    if !position_fits(p) {
        return Err(EncodeError::BoundsExceeded);
    }
    match p {
        None => {
            let _ = encode_varint(0, out);
        },
        Some(at) => {
            let _ = encode_varint(1, out);
            let _ = encode_varint(at.group, out);
            let _ = encode_varint(at.object, out);
        },
    }
    assert(out@ =~= old(out)@ + spec_encode_position(*p));
    Ok(())
}

/// Reads one optional position at `pos`. On success the second component
/// is the position in `buf` just behind it.
pub fn decode_position_at(buf: &[u8], pos: usize) -> (r: Result<
    (Option<Position>, usize),
    DecodeError,
>)
    requires
        pos <= buf@.len(),
    ensures
        match r {
            Ok((p, next)) => pos < next <= buf@.len() && spec_decode_position(
                buf@.skip(pos as int),
            ) == Ok::<(Option<Position>, Seq<u8>), DecodeError>((p, buf@.skip(next as int))),
            Err(e) => spec_decode_position(buf@.skip(pos as int)) == Err::<
                (Option<Position>, Seq<u8>),
                DecodeError,
            >(e),
        },
{
    let (flag, p1) = decode_varint_at(buf, pos)?;
    if flag == 0 {
        return Ok((None, p1));
    }
    if flag > 1 {
        return Err(DecodeError::InvalidMessage(flag));
    }
    let (group, p2) = decode_varint_at(buf, p1)?;
    let (object, next) = decode_varint_at(buf, p2)?;
    Ok((Some(Position { group, object }), next))
}

} // verus!
