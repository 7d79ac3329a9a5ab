//! Length-prefixed strings: a variable-length integer that gives the number
//! of octets, then the text in UTF-8.
use vstd::prelude::*;
use vstd::utf8::decode_utf8;
use vstd::utf8::decode_utf8_encode_utf8;
use vstd::utf8::encode_utf8;
use vstd::utf8::encode_utf8_decode_utf8;
use vstd::utf8::encode_utf8_valid_utf8;
use vstd::utf8::valid_utf8;

use crate::coding::bytes::decode_bytes_at;
use crate::coding::bytes::encode_bytes;
use crate::coding::bytes::lemma_decoded_bytes_fit;
use crate::coding::bytes::lemma_bytes_round_trip;
use crate::coding::bytes::spec_decode_bytes;
use crate::coding::bytes::spec_encode_bytes;
use crate::coding::varint::VARINT_MAX;
use crate::error::DecodeError;
use crate::error::EncodeError;

verus! {

/// The octets that stand for `s`, meaningful where its UTF-8 form has at
/// most `VARINT_MAX` octets.
pub open spec fn spec_encode_string(s: Seq<char>) -> Seq<u8> {
    spec_encode_bytes(encode_utf8(s))
}

/// Whether the UTF-8 form of `s` is short enough to be encoded.
pub open spec fn spec_string_fits(s: Seq<char>) -> bool {
    encode_utf8(s).len() <= VARINT_MAX
}

/// Reads one string from the front of `s`; octets that are not UTF-8 give
/// `InvalidString`.
pub open spec fn spec_decode_string(s: Seq<u8>) -> Result<(Seq<char>, Seq<u8>), DecodeError> {
    match spec_decode_bytes(s) {
        Err(e) => Err(e),
        Ok((b, rest)) => if valid_utf8(b) {
            Ok((decode_utf8(b), rest))
        } else {
            Err(DecodeError::InvalidString)
        },
    }
}

/// Decoding what was encoded gives the text back and leaves what followed.
pub proof fn lemma_string_round_trip(s: Seq<char>, rest: Seq<u8>)
    requires
        spec_string_fits(s),
    ensures
        spec_decode_string(spec_encode_string(s) + rest) == Ok::<(Seq<char>, Seq<u8>), DecodeError>(
            (s, rest),
        ),
{
    lemma_bytes_round_trip(encode_utf8(s), rest);
    encode_utf8_valid_utf8(s);
    encode_utf8_decode_utf8(s);
}

/// A decoded string can be encoded again.
pub proof fn lemma_decoded_string_fits(s: Seq<u8>)
    requires
        spec_decode_string(s) is Ok,
    ensures
        spec_string_fits(spec_decode_string(s)->Ok_0.0),
{
    let (b, rest) = spec_decode_bytes(s)->Ok_0;
    decode_utf8_encode_utf8(b);
    lemma_decoded_bytes_fit(s);
}

/// `String::from_utf8` of the standard library: it gives the text exactly
/// when the octets are well-formed UTF-8, and the text is then the one that
/// those octets spell.
#[verifier::external_body]
fn string_from_utf8(bytes: Vec<u8>) -> (r: Option<String>)
    ensures
        r is Some <==> valid_utf8(bytes@),
        r matches Some(s) ==> s@ == decode_utf8(bytes@),
{
    String::from_utf8(bytes).ok()
}

/// Whether the UTF-8 form of `s` is short enough to be encoded.
pub fn string_fits(s: &str) -> (b: bool)
    ensures
        b == spec_string_fits(s@),
{
    s.as_bytes().len() as u64 <= VARINT_MAX
}

/// Appends the length-prefixed UTF-8 form of `s` to `out`. A string of more
/// than `VARINT_MAX` octets is refused with `BoundsExceeded` and leaves `out`
/// as it was.
pub fn encode_string(s: &str, out: &mut Vec<u8>) -> (r: Result<(), EncodeError>)
    ensures
        spec_string_fits(s@) ==> r is Ok && final(out)@ == old(out)@ + spec_encode_string(s@),
        !spec_string_fits(s@) ==> r == Err::<(), EncodeError>(EncodeError::BoundsExceeded)
            && final(out)@ == old(out)@,
{
    encode_bytes(s.as_bytes(), out)
}

/// Reads one string at `pos`. On success the second component is the
/// position just behind it.
pub fn decode_string_at(buf: &[u8], pos: usize) -> (r: Result<(String, usize), DecodeError>)
    requires
        pos <= buf@.len(),
    ensures
        match r {
            Ok((s, next)) => pos < next <= buf@.len() && spec_decode_string(buf@.skip(pos as int))
                == Ok::<(Seq<char>, Seq<u8>), DecodeError>((s@, buf@.skip(next as int))),
            Err(e) => spec_decode_string(buf@.skip(pos as int)) == Err::<
                (Seq<char>, Seq<u8>),
                DecodeError,
            >(e),
        },
{
    let (b, next) = decode_bytes_at(buf, pos)?;
    match string_from_utf8(b) {
        Some(s) => Ok((s, next)),
        None => Err(DecodeError::InvalidString),
    }
}

} // verus!
