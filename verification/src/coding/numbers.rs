//! Lists of numbers: a count, then that many variable-length integers.
use vstd::prelude::*;

use crate::coding::bytes::lemma_concat_assoc;
use crate::coding::varint::decode_varint_at;
use crate::coding::varint::encode_varint;
use crate::coding::varint::lemma_varint_round_trip;
use crate::coding::varint::spec_decode_varint;
use crate::coding::varint::spec_encode_varint;
use crate::coding::varint::VARINT_MAX;
use crate::error::DecodeError;
use crate::error::EncodeError;

verus! {

/// The count and every number can be encoded.
pub open spec fn spec_numbers_fit(v: Seq<u64>) -> bool {
    &&& v.len() <= VARINT_MAX
    &&& forall|i: int| 0 <= i < v.len() ==> v[i] <= VARINT_MAX
}

/// The numbers of `v` from index `from` on, one after the other.
pub open spec fn spec_encode_items(v: Seq<u64>, from: int) -> Seq<u8>
    decreases v.len() - from,
{
    if from < 0 || from >= v.len() {
        Seq::empty()
    } else {
        spec_encode_varint(v[from]) + spec_encode_items(v, from + 1)
    }
}

/// The count followed by the numbers.
pub open spec fn spec_encode_numbers(v: Seq<u64>) -> Seq<u8> {
    spec_encode_varint(v.len() as u64) + spec_encode_items(v, 0)
}

/// Reads `count` further numbers from the front of `s` behind the numbers
/// `seen`.
pub open spec fn spec_decode_items(s: Seq<u8>, count: nat, seen: Seq<u64>) -> Result<
    (Seq<u64>, Seq<u8>),
    DecodeError,
>
    decreases count,
{
    if count == 0 {
        Ok((seen, s))
    } else {
        match spec_decode_varint(s) {
            Err(e) => Err(e),
            Ok((x, rest)) => spec_decode_items(rest, (count - 1) as nat, seen.push(x)),
        }
    }
}

/// Reads one list of numbers from the front of `s`.
pub open spec fn spec_decode_numbers(s: Seq<u8>) -> Result<(Seq<u64>, Seq<u8>), DecodeError> {
    match spec_decode_varint(s) {
        Err(e) => Err(e),
        Ok((count, rest)) => spec_decode_items(rest, count as nat, Seq::empty()),
    }
}

proof fn lemma_items_round_trip(v: Seq<u64>, from: int, rest: Seq<u8>)
    requires
        spec_numbers_fit(v),
        0 <= from <= v.len(),
    ensures
        spec_decode_items(
            spec_encode_items(v, from) + rest,
            (v.len() - from) as nat,
            v.subrange(0, from),
        ) == Ok::<(Seq<u64>, Seq<u8>), DecodeError>((v, rest)),
    decreases v.len() - from,
{
    if from == v.len() {
        assert(v.subrange(0, from) =~= v);
        assert(spec_encode_items(v, from) + rest =~= rest);
    } else {
        let tail = spec_encode_items(v, from + 1) + rest;
        lemma_concat_assoc(spec_encode_varint(v[from]), spec_encode_items(v, from + 1), rest);
        lemma_varint_round_trip(v[from], tail);
        assert(v.subrange(0, from).push(v[from]) =~= v.subrange(0, from + 1));
        lemma_items_round_trip(v, from + 1, rest);
    }
}

/// Decoding what was encoded gives the numbers back, one for one, and
/// leaves what followed.
pub proof fn lemma_numbers_round_trip(v: Seq<u64>, rest: Seq<u8>)
    requires
        spec_numbers_fit(v),
    ensures
        spec_decode_numbers(spec_encode_numbers(v) + rest) == Ok::<
            (Seq<u64>, Seq<u8>),
            DecodeError,
        >((v, rest)),
{
    let body = spec_encode_items(v, 0) + rest;
    lemma_concat_assoc(spec_encode_varint(v.len() as u64), spec_encode_items(v, 0), rest);
    lemma_varint_round_trip(v.len() as u64, body);
    assert(v.subrange(0, 0) =~= Seq::<u64>::empty());
    lemma_items_round_trip(v, 0, rest);
}

/// Whether the count and every number can be encoded.
pub fn numbers_fit(v: &[u64]) -> (b: bool)
    ensures
        b == spec_numbers_fit(v@),
{
    if v.len() as u64 > VARINT_MAX {
        return false;
    }
    let mut i: usize = 0;
    while i < v.len()
        invariant
            i <= v@.len(),
            forall|j: int| 0 <= j < i ==> v@[j] <= VARINT_MAX,
        decreases v@.len() - i,
    {
        if v[i] > VARINT_MAX {
            return false;
        }
        i += 1;
    }
    true
}

/// Appends the count and the numbers to `out`. A list that does not fit is
/// refused with `BoundsExceeded` and leaves `out` as it was.
pub fn encode_numbers(v: &[u64], out: &mut Vec<u8>) -> (r: Result<(), EncodeError>)
    ensures
        spec_numbers_fit(v@) ==> r is Ok && final(out)@ == old(out)@ + spec_encode_numbers(v@),
        !spec_numbers_fit(v@) ==> r == Err::<(), EncodeError>(EncodeError::BoundsExceeded)
            && final(out)@ == old(out)@,
{
    if !numbers_fit(v) {
        return Err(EncodeError::BoundsExceeded);
    }
    let n = v.len();
    let _ = encode_varint(n as u64, out);
    let ghost head = out@;
    let mut i: usize = 0;
    while i < n
        invariant
            n == v@.len(),
            i <= n,
            spec_numbers_fit(v@),
            out@ + spec_encode_items(v@, i as int) == head + spec_encode_items(v@, 0),
        decreases n - i,
    {
        let ghost before = out@;
        let _ = encode_varint(v[i], out);
        proof {
            lemma_concat_assoc(before, spec_encode_varint(v@[i as int]), spec_encode_items(v@, i + 1));
        }
        i += 1;
    }
    assert(spec_encode_items(v@, n as int) =~= Seq::<u8>::empty());
    assert(out@ =~= old(out)@ + spec_encode_numbers(v@));
    Ok(())
}

/// Reads one list of numbers at `pos`. On success the second component is
/// the position just behind it.
pub fn decode_numbers_at(buf: &[u8], pos: usize) -> (r: Result<(Vec<u64>, usize), DecodeError>)
    requires
        pos <= buf@.len(),
    ensures
        match r {
            Ok((v, next)) => pos < next <= buf@.len() && spec_numbers_fit(v@)
                && spec_decode_numbers(buf@.skip(pos as int)) == Ok::<
                (Seq<u64>, Seq<u8>),
                DecodeError,
            >((v@, buf@.skip(next as int))),
            Err(e) => spec_decode_numbers(buf@.skip(pos as int)) == Err::<
                (Seq<u64>, Seq<u8>),
                DecodeError,
            >(e),
        },
{
    let (count, start) = decode_varint_at(buf, pos)?;
    let mut v: Vec<u64> = Vec::new();
    let mut at = start;
    let mut i: u64 = 0;
    while i < count
        invariant
            i <= count,
            count <= VARINT_MAX,
            pos < at <= buf@.len(),
            v@.len() == i,
            forall|j: int| 0 <= j < v@.len() ==> v@[j] <= VARINT_MAX,
            spec_decode_numbers(buf@.skip(pos as int)) == spec_decode_items(
                buf@.skip(at as int),
                (count - i) as nat,
                v@,
            ),
        decreases count - i,
    {
        let (x, next) = decode_varint_at(buf, at)?;
        v.push(x);
        at = next;
        i += 1;
    }
    Ok((v, at))
}

} // verus!
