//! The acceptance of a subscription.
use vstd::prelude::*;

use crate::coding::bytes::lemma_concat_assoc;
use crate::coding::varint::decode_varint_at;
use crate::coding::varint::encode_varint;
use crate::coding::varint::lemma_varint_round_trip;
use crate::coding::varint::spec_decode_varint;
use crate::coding::varint::spec_encode_varint;
use crate::coding::varint::VARINT_MAX;
use crate::error::DecodeError;
use crate::error::EncodeError;
use crate::message::position::decode_position_at;
use crate::message::position::encode_position;
use crate::message::position::lemma_position_round_trip;
use crate::message::position::Position;
use crate::message::position::position_fits;
use crate::message::position::spec_decode_position;
use crate::message::position::spec_encode_position;
use crate::message::position::spec_position_fits;

verus! {

/// Sent in answer to a `Subscribe` to accept it.
#[derive(Clone, Copy, Debug, PartialEq, Eq, Structural)]
pub struct SubscribeOk {
    /// The subscription id.
    pub id: u64,
    /// Milliseconds after which the subscription lapses; 0 for never.
    pub expires: u64,
    /// The largest group and object that the publisher holds, if any.
    pub latest: Option<Position>,
}

impl SubscribeOk {
    /// Every number and every length of the message can be encoded.
    pub open spec fn spec_fits(self) -> bool {
        &&& self.id <= VARINT_MAX
        &&& self.expires <= VARINT_MAX
        &&& spec_position_fits(self.latest)
    }

    /// The body of the message, meaningful where it fits.
    pub open spec fn spec_encode(self) -> Seq<u8> {
        spec_encode_varint(self.id)
            + spec_encode_varint(self.expires)
            + spec_encode_position(self.latest)
    }

    /// Reads one `SubscribeOk` body from the front of `s`: the fields in order,
    /// and the first field that fails gives its error.
    pub open spec fn spec_decode(s: Seq<u8>) -> Result<(SubscribeOk, Seq<u8>), DecodeError> {
        match spec_decode_varint(s) {
            Err(e) => Err(e),
            Ok((id, s1)) => match spec_decode_varint(s1) {
                Err(e) => Err(e),
                Ok((expires, s2)) => match spec_decode_position(s2) {
                    Err(e) => Err(e),
                    Ok((latest, rest)) => Ok((SubscribeOk { id, expires, latest }, rest)),
                },
            },
        }
    }

    /// Decoding the encoding of a message that fits gives the message
    /// back, field for field, and leaves what followed.
    pub proof fn lemma_round_trip(self, rest: Seq<u8>)
        requires
            self.spec_fits(),
        ensures
            Self::spec_decode(self.spec_encode() + rest) == Ok::<
                (SubscribeOk, Seq<u8>),
                DecodeError,
            >((self, rest)),
    {
        let a1 = spec_encode_varint(self.id);
        let a2 = spec_encode_varint(self.expires);
        let a3 = spec_encode_position(self.latest);
        let s2 = a3 + rest;
        let s1 = a2 + s2;
        assert(self.spec_encode() + rest == a1 + s1) by {
            lemma_concat_assoc(a1 + a2, a3, rest);
            lemma_concat_assoc(a1, a2, s2);
        }
        lemma_varint_round_trip(self.id, s1);
        lemma_varint_round_trip(self.expires, s2);
        lemma_position_round_trip(self.latest, rest);
        Self::lemma_steps(self, a1 + s1, s1, s2, rest);
    }

    proof fn lemma_steps(
        v: SubscribeOk,
        s0: Seq<u8>,
        s1: Seq<u8>,
        s2: Seq<u8>,
        rest: Seq<u8>,
    )
        requires
            spec_decode_varint(s0) == Ok::<(u64, Seq<u8>), DecodeError>((v.id, s1)),
            spec_decode_varint(s1) == Ok::<(u64, Seq<u8>), DecodeError>((v.expires, s2)),
            spec_decode_position(s2) == Ok::<
                (Option<Position>, Seq<u8>),
                DecodeError,
            >((v.latest, rest)),
        ensures
            Self::spec_decode(s0) == Ok::<(SubscribeOk, Seq<u8>), DecodeError>((v, rest)),
    {
    }
}

impl SubscribeOk {
    /// Whether every number and every length of the message can be encoded.
    pub fn fits(&self) -> (b: bool)
        ensures
            b == self.spec_fits(),
    {
        self.id <= VARINT_MAX
            && self.expires <= VARINT_MAX
            && position_fits(&self.latest)
    }

    /// Appends the body of the message to `out`. A message that does not
    /// fit is refused with `BoundsExceeded` and leaves `out` as it was.
    pub fn encode(&self, out: &mut Vec<u8>) -> (r: Result<(), EncodeError>)
        ensures
            self.spec_fits() ==> r is Ok && final(out)@ == old(out)@
                + self.spec_encode(),
            !self.spec_fits() ==> r == Err::<(), EncodeError>(EncodeError::BoundsExceeded)
                && final(out)@ == old(out)@,
    {
        if !self.fits() {
            return Err(EncodeError::BoundsExceeded);
        }
        let _ = encode_varint(self.id, out);
        let _ = encode_varint(self.expires, out);
        let _ = encode_position(&self.latest, out);
        assert(out@ =~= old(out)@ + self.spec_encode());
        Ok(())
    }

    /// Reads one `SubscribeOk` body at `pos`. On success the second component is
    /// the position just behind it.
    pub fn decode_at(buf: &[u8], pos: usize) -> (r: Result<(SubscribeOk, usize), DecodeError>)
        requires
            pos <= buf@.len(),
        ensures
            match r {
                Ok((m, next)) => pos < next <= buf@.len() && m.spec_fits()
                    && SubscribeOk::spec_decode(buf@.skip(pos as int)) == Ok::<
                        (SubscribeOk, Seq<u8>),
                        DecodeError,
                    >((m, buf@.skip(next as int))),
                Err(e) => SubscribeOk::spec_decode(buf@.skip(pos as int)) == Err::<
                    (SubscribeOk, Seq<u8>),
                    DecodeError,
                >(e),
            },
    {
        let (id, p1) = decode_varint_at(buf, pos)?;
        let (expires, p2) = decode_varint_at(buf, p1)?;
        let (latest, next) = decode_position_at(buf, p2)?;
        Ok((SubscribeOk { id, expires, latest }, next))
    }

    /// Reads one `SubscribeOk` body from the front of `buf`: the message and the
    /// number of bytes it took.
    pub fn decode(buf: &[u8]) -> (r: Result<(SubscribeOk, usize), DecodeError>)
        ensures
            match r {
                Ok((m, n)) => 0 < n <= buf@.len() && m.spec_fits()
                    && SubscribeOk::spec_decode(buf@) == Ok::<
                        (SubscribeOk, Seq<u8>),
                        DecodeError,
                    >((m, buf@.skip(n as int))),
                Err(e) => SubscribeOk::spec_decode(buf@) == Err::<
                    (SubscribeOk, Seq<u8>),
                    DecodeError,
                >(e),
            },
    {
        assert(buf@.skip(0) =~= buf@);
        Self::decode_at(buf, 0)
    }
}

} // verus!
