//! Numeric codes: a variable-length integer that must fit 32 bits.
use vstd::prelude::*;

use crate::coding::varint::decode_varint_at;
use crate::coding::varint::encode_varint;
use crate::coding::varint::lemma_varint_round_trip;
use crate::coding::varint::spec_decode_varint;
use crate::coding::varint::spec_encode_varint;
use crate::error::DecodeError;

verus! {

/// The variable-length integer that stands for `code`.
pub open spec fn spec_encode_code(code: u32) -> Seq<u8> {
    spec_encode_varint(code as u64)
}

/// Reads one code from the front of `s`; a number above 2^32 - 1 gives
/// `BoundsExceeded`.
pub open spec fn spec_decode_code(s: Seq<u8>) -> Result<(u32, Seq<u8>), DecodeError> {
    match spec_decode_varint(s) {
        Err(e) => Err(e),
        Ok((v, rest)) => if v > u32::MAX {
            Err(DecodeError::BoundsExceeded)
        } else {
            Ok((v as u32, rest))
        },
    }
}

/// Decoding what was encoded gives the code back and leaves what followed.
pub proof fn lemma_code_round_trip(code: u32, rest: Seq<u8>)
    ensures
        spec_decode_code(spec_encode_code(code) + rest) == Ok::<(u32, Seq<u8>), DecodeError>(
            (code, rest),
        ),
{
    lemma_varint_round_trip(code as u64, rest);
}

/// Appends `code` to `out`.
pub fn encode_code(code: u32, out: &mut Vec<u8>)
    ensures
        final(out)@ == old(out)@ + spec_encode_code(code),
{
    let _ = encode_varint(code as u64, out);
}

/// Reads one code at `pos`. On success the second component is the position
/// just behind it.
pub fn decode_code_at(buf: &[u8], pos: usize) -> (r: Result<(u32, usize), DecodeError>)
    requires
        pos <= buf@.len(),
    ensures
        match r {
            Ok((c, next)) => pos < next <= buf@.len() && spec_decode_code(buf@.skip(pos as int))
                == Ok::<(u32, Seq<u8>), DecodeError>((c, buf@.skip(next as int))),
            Err(e) => spec_decode_code(buf@.skip(pos as int)) == Err::<(u32, Seq<u8>), DecodeError>(
                e,
            ),
        },
{
    let (v, next) = decode_varint_at(buf, pos)?;
    if v > u32::MAX as u64 {
        return Err(DecodeError::BoundsExceeded);
    }
    Ok((v as u32, next))
}

} // verus!
