//! The end of a subscription.
use vstd::prelude::*;

use crate::coding::bytes::lemma_concat_assoc;
use crate::coding::code::decode_code_at;
use crate::coding::code::encode_code;
use crate::coding::code::lemma_code_round_trip;
use crate::coding::code::spec_decode_code;
use crate::coding::code::spec_encode_code;
use crate::coding::string::decode_string_at;
use crate::coding::string::encode_string;
use crate::coding::string::lemma_decoded_string_fits;
use crate::coding::string::lemma_string_round_trip;
use crate::coding::string::spec_decode_string;
use crate::coding::string::spec_encode_string;
use crate::coding::string::spec_string_fits;
use crate::coding::string::string_fits;
use crate::coding::varint::decode_varint_at;
use crate::coding::varint::encode_varint;
use crate::coding::varint::lemma_varint_round_trip;
use crate::coding::varint::spec_decode_varint;
use crate::coding::varint::spec_encode_varint;
use crate::coding::varint::VARINT_MAX;
use crate::error::DecodeError;
use crate::error::EncodeError;
use crate::message::position::decode_position_at;
use crate::message::position::encode_position;
use crate::message::position::lemma_position_round_trip;
use crate::message::position::Position;
use crate::message::position::position_fits;
use crate::message::position::spec_decode_position;
use crate::message::position::spec_encode_position;
use crate::message::position::spec_position_fits;

verus! {

/// Sent by the publisher when it will send no more for a subscription.
#[derive(Clone, Debug, PartialEq, Eq)]
pub struct SubscribeDone {
    /// The subscription id.
    pub id: u64,
    /// The numeric code of the reason.
    pub code: u32,
    /// The reason in words.
    pub reason: String,
    /// The final group and object that were sent, if any.
    pub last: Option<Position>,
}

/// What a `SubscribeDone` holds, as plain values.
pub struct SubscribeDoneView {
    pub id: u64,
    pub code: u32,
    pub reason: Seq<char>,
    pub last: Option<Position>,
}

impl View for SubscribeDone {
    type V = SubscribeDoneView;

    open spec fn view(&self) -> SubscribeDoneView {
        SubscribeDoneView {
            id: self.id,
            code: self.code,
            reason: self.reason@,
            last: self.last,
        }
    }
}

impl SubscribeDoneView {
    /// Every number and every length of the message can be encoded.
    pub open spec fn spec_fits(self) -> bool {
        &&& self.id <= VARINT_MAX
        &&& spec_string_fits(self.reason)
        &&& spec_position_fits(self.last)
    }

    /// The body of the message, meaningful where it fits.
    pub open spec fn spec_encode(self) -> Seq<u8> {
        spec_encode_varint(self.id)
            + spec_encode_code(self.code)
            + spec_encode_string(self.reason)
            + spec_encode_position(self.last)
    }

    /// Reads one `SubscribeDone` body from the front of `s`: the fields in order,
    /// and the first field that fails gives its error.
    pub open spec fn spec_decode(s: Seq<u8>) -> Result<(SubscribeDoneView, Seq<u8>), DecodeError> {
        match spec_decode_varint(s) {
            Err(e) => Err(e),
            Ok((id, s1)) => match spec_decode_code(s1) {
                Err(e) => Err(e),
                Ok((code, s2)) => match spec_decode_string(s2) {
                    Err(e) => Err(e),
                    Ok((reason, s3)) => match spec_decode_position(s3) {
                        Err(e) => Err(e),
                        Ok((last, rest)) => Ok(
                            (SubscribeDoneView { id, code, reason, last }, rest),
                        ),
                    },
                },
            },
        }
    }

    /// Decoding the encoding of a message that fits gives the message
    /// back, field for field, and leaves what followed.
    pub proof fn lemma_round_trip(self, rest: Seq<u8>)
        requires
            self.spec_fits(),
        ensures
            Self::spec_decode(self.spec_encode() + rest) == Ok::<
                (SubscribeDoneView, Seq<u8>),
                DecodeError,
            >((self, rest)),
    {
        let a1 = spec_encode_varint(self.id);
        let a2 = spec_encode_code(self.code);
        let a3 = spec_encode_string(self.reason);
        let a4 = spec_encode_position(self.last);
        let s3 = a4 + rest;
        let s2 = a3 + s3;
        let s1 = a2 + s2;
        assert(self.spec_encode() + rest == a1 + s1) by {
            lemma_concat_assoc(a1 + a2 + a3, a4, rest);
            lemma_concat_assoc(a1 + a2, a3, s3);
            lemma_concat_assoc(a1, a2, s2);
        }
        lemma_varint_round_trip(self.id, s1);
        lemma_code_round_trip(self.code, s2);
        lemma_string_round_trip(self.reason, s3);
        lemma_position_round_trip(self.last, rest);
        Self::lemma_steps(self, a1 + s1, s1, s2, s3, rest);
    }

    proof fn lemma_steps(
        v: SubscribeDoneView,
        s0: Seq<u8>,
        s1: Seq<u8>,
        s2: Seq<u8>,
        s3: Seq<u8>,
        rest: Seq<u8>,
    )
        requires
            spec_decode_varint(s0) == Ok::<(u64, Seq<u8>), DecodeError>((v.id, s1)),
            spec_decode_code(s1) == Ok::<(u32, Seq<u8>), DecodeError>((v.code, s2)),
            spec_decode_string(s2) == Ok::<(Seq<char>, Seq<u8>), DecodeError>((v.reason, s3)),
            spec_decode_position(s3) == Ok::<
                (Option<Position>, Seq<u8>),
                DecodeError,
            >((v.last, rest)),
        ensures
            Self::spec_decode(s0) == Ok::<(SubscribeDoneView, Seq<u8>), DecodeError>((v, rest)),
    {
    }
}

impl SubscribeDone {
    /// Whether every number and every length of the message can be encoded.
    pub fn fits(&self) -> (b: bool)
        ensures
            b == self@.spec_fits(),
    {
        self.id <= VARINT_MAX
            && string_fits(self.reason.as_str())
            && position_fits(&self.last)
    }

    /// Appends the body of the message to `out`. A message that does not
    /// fit is refused with `BoundsExceeded` and leaves `out` as it was.
    pub fn encode(&self, out: &mut Vec<u8>) -> (r: Result<(), EncodeError>)
        ensures
            self@.spec_fits() ==> r is Ok && final(out)@ == old(out)@
                + self@.spec_encode(),
            !self@.spec_fits() ==> r == Err::<(), EncodeError>(EncodeError::BoundsExceeded)
                && final(out)@ == old(out)@,
    {
        if !self.fits() {
            return Err(EncodeError::BoundsExceeded);
        }
        let _ = encode_varint(self.id, out);
        encode_code(self.code, out);
        let _ = encode_string(self.reason.as_str(), out);
        let _ = encode_position(&self.last, out);
        assert(out@ =~= old(out)@ + self@.spec_encode());
        Ok(())
    }

    /// Reads one `SubscribeDone` body at `pos`. On success the second component is
    /// the position just behind it.
    pub fn decode_at(buf: &[u8], pos: usize) -> (r: Result<(SubscribeDone, usize), DecodeError>)
        requires
            pos <= buf@.len(),
        ensures
            match r {
                Ok((m, next)) => pos < next <= buf@.len() && m@.spec_fits()
                    && SubscribeDoneView::spec_decode(buf@.skip(pos as int)) == Ok::<
                        (SubscribeDoneView, Seq<u8>),
                        DecodeError,
                    >((m@, buf@.skip(next as int))),
                Err(e) => SubscribeDoneView::spec_decode(buf@.skip(pos as int)) == Err::<
                    (SubscribeDoneView, Seq<u8>),
                    DecodeError,
                >(e),
            },
    {
        let (id, p1) = decode_varint_at(buf, pos)?;
        let (code, p2) = decode_code_at(buf, p1)?;
        let (reason, p3) = decode_string_at(buf, p2)?;
        let (last, next) = decode_position_at(buf, p3)?;
        proof {
            lemma_decoded_string_fits(buf@.skip(p2 as int));
        }
        Ok((SubscribeDone { id, code, reason, last }, next))
    }

    /// Reads one `SubscribeDone` body from the front of `buf`: the message and the
    /// number of bytes it took.
    pub fn decode(buf: &[u8]) -> (r: Result<(SubscribeDone, usize), DecodeError>)
        ensures
            match r {
                Ok((m, n)) => 0 < n <= buf@.len() && m@.spec_fits()
                    && SubscribeDoneView::spec_decode(buf@) == Ok::<
                        (SubscribeDoneView, Seq<u8>),
                        DecodeError,
                    >((m@, buf@.skip(n as int))),
                Err(e) => SubscribeDoneView::spec_decode(buf@) == Err::<
                    (SubscribeDoneView, Seq<u8>),
                    DecodeError,
                >(e),
            },
    {
        assert(buf@.skip(0) =~= buf@);
        Self::decode_at(buf, 0)
    }
}

} // verus!
