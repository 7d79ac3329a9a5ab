//! Length-prefixed octets: a variable-length integer that gives the number
//! of octets, then the octets themselves.
use vstd::prelude::*;
use vstd::slice::slice_subrange;
use vstd::slice::slice_to_vec;

use crate::coding::varint::decode_varint_at;
use crate::coding::varint::encode_varint;
use crate::coding::varint::lemma_varint_round_trip;
use crate::coding::varint::lemma_varint_value_bounded;
use crate::coding::varint::spec_decode_varint;
use crate::coding::varint::spec_encode_varint;
use crate::coding::varint::VARINT_MAX;
use crate::error::DecodeError;
use crate::error::EncodeError;

verus! {

/// The length prefix followed by the octets, meaningful for at most
/// `VARINT_MAX` octets.
pub open spec fn spec_encode_bytes(b: Seq<u8>) -> Seq<u8> {
    spec_encode_varint(b.len() as u64) + b
}

/// Reads one length-prefixed run of octets from the front of `s`.
pub open spec fn spec_decode_bytes(s: Seq<u8>) -> Result<(Seq<u8>, Seq<u8>), DecodeError> {
    match spec_decode_varint(s) {
        Err(e) => Err(e),
        Ok((len, rest)) => if rest.len() < len {
            Err(DecodeError::MissingField)
        } else {
            Ok((rest.subrange(0, len as int), rest.skip(len as int)))
        },
    }
}

/// Decoding what was encoded gives the octets back and leaves what followed.
pub proof fn lemma_bytes_round_trip(b: Seq<u8>, rest: Seq<u8>)
    requires
        b.len() <= VARINT_MAX,
    ensures
        spec_decode_bytes(spec_encode_bytes(b) + rest) == Ok::<(Seq<u8>, Seq<u8>), DecodeError>(
            (b, rest),
        ),
{
    let len = b.len() as u64;
    lemma_varint_round_trip(len, b + rest);
    assert(spec_encode_bytes(b) + rest =~= spec_encode_varint(len) + (b + rest));
    assert((b + rest).subrange(0, len as int) =~= b);
    assert((b + rest).skip(len as int) =~= rest);
}

/// Decoded octets are few enough to be encoded again.
pub proof fn lemma_decoded_bytes_fit(s: Seq<u8>)
    requires
        spec_decode_bytes(s) is Ok,
    ensures
        spec_decode_bytes(s)->Ok_0.0.len() <= VARINT_MAX,
{
    lemma_varint_value_bounded(s);
}

/// Concatenation may be regrouped.
pub proof fn lemma_concat_assoc(a: Seq<u8>, b: Seq<u8>, c: Seq<u8>)
    ensures
        (a + b) + c == a + (b + c),
{
    assert((a + b) + c =~= a + (b + c));
}

/// Appends `b` to `out` as it stands.
pub fn append_octets(out: &mut Vec<u8>, b: &[u8])
    ensures
        final(out)@ == old(out)@ + b@,
{
    let mut i: usize = 0;
    while i < b.len()
        invariant
            i <= b@.len(),
            out@ == old(out)@ + b@.subrange(0, i as int),
        decreases b@.len() - i,
    {
        out.push(b[i]);
        i += 1;
        assert(out@ =~= old(out)@ + b@.subrange(0, i as int));
    }
    assert(b@.subrange(0, i as int) =~= b@);
}

/// Appends the length of `b` and then `b` to `out`. More than `VARINT_MAX`
/// octets are refused with `BoundsExceeded` and leave `out` as it was.
pub fn encode_bytes(b: &[u8], out: &mut Vec<u8>) -> (r: Result<(), EncodeError>)
    ensures
        b@.len() <= VARINT_MAX ==> r is Ok && final(out)@ == old(out)@ + spec_encode_bytes(b@),
        b@.len() > VARINT_MAX ==> r == Err::<(), EncodeError>(EncodeError::BoundsExceeded)
            && final(out)@ == old(out)@,
{
    let len = b.len();
    if len as u64 > VARINT_MAX {
        return Err(EncodeError::BoundsExceeded);
    }
    let _ = encode_varint(len as u64, out);
    append_octets(out, b);
    assert(out@ =~= old(out)@ + spec_encode_bytes(b@));
    Ok(())
}

/// Reads one length-prefixed run of octets at `pos`. On success the second
/// component is the position just behind it.
pub fn decode_bytes_at(buf: &[u8], pos: usize) -> (r: Result<(Vec<u8>, usize), DecodeError>)
    requires
        pos <= buf@.len(),
    ensures
        match r {
            Ok((b, next)) => pos < next <= buf@.len() && spec_decode_bytes(buf@.skip(pos as int))
                == Ok::<(Seq<u8>, Seq<u8>), DecodeError>((b@, buf@.skip(next as int))),
            Err(e) => spec_decode_bytes(buf@.skip(pos as int)) == Err::<
                (Seq<u8>, Seq<u8>),
                DecodeError,
            >(e),
        },
{
    let (len, start) = decode_varint_at(buf, pos)?;
    let avail = buf.len() - start;
    if len > avail as u64 {
        return Err(DecodeError::MissingField);
    }
    let end = start + len as usize;
    let b = slice_to_vec(slice_subrange(buf, start, end));
    proof {
        let rest = buf@.skip(start as int);
        assert(rest.subrange(0, len as int) =~= buf@.subrange(start as int, end as int));
        assert(rest.skip(len as int) =~= buf@.skip(end as int));
    }
    Ok((b, end))
}

} // verus!
