//! The refusal of a subscription.
use vstd::prelude::*;

use crate::coding::bytes::lemma_concat_assoc;
use crate::coding::code::decode_code_at;
use crate::coding::code::encode_code;
use crate::coding::code::lemma_code_round_trip;
use crate::coding::code::spec_decode_code;
use crate::coding::code::spec_encode_code;
use crate::coding::string::decode_string_at;
use crate::coding::string::encode_string;
use crate::coding::string::lemma_decoded_string_fits;
use crate::coding::string::lemma_string_round_trip;
use crate::coding::string::spec_decode_string;
use crate::coding::string::spec_encode_string;
use crate::coding::string::spec_string_fits;
use crate::coding::string::string_fits;
use crate::coding::varint::decode_varint_at;
use crate::coding::varint::encode_varint;
use crate::coding::varint::lemma_varint_round_trip;
use crate::coding::varint::spec_decode_varint;
use crate::coding::varint::spec_encode_varint;
use crate::coding::varint::VARINT_MAX;
use crate::error::DecodeError;
use crate::error::EncodeError;

verus! {

/// Sent in answer to a `Subscribe` to refuse it.
#[derive(Clone, Debug, PartialEq, Eq)]
pub struct SubscribeError {
    /// The subscription id.
    pub id: u64,
    /// The numeric code of the reason.
    pub code: u32,
    /// The reason in words.
    pub reason: String,
    /// The alias that the subscriber may use in a new attempt.
    pub track_alias: u64,
}

/// What a `SubscribeError` holds, as plain values.
pub struct SubscribeErrorView {
    pub id: u64,
    pub code: u32,
    pub reason: Seq<char>,
    pub track_alias: u64,
}

impl View for SubscribeError {
    type V = SubscribeErrorView;

    open spec fn view(&self) -> SubscribeErrorView {
        SubscribeErrorView {
            id: self.id,
            code: self.code,
            reason: self.reason@,
            track_alias: self.track_alias,
        }
    }
}

impl SubscribeErrorView {
    /// Every number and every length of the message can be encoded.
    pub open spec fn spec_fits(self) -> bool {
        &&& self.id <= VARINT_MAX
        &&& spec_string_fits(self.reason)
        &&& self.track_alias <= VARINT_MAX
    }

    /// The body of the message, meaningful where it fits.
    pub open spec fn spec_encode(self) -> Seq<u8> {
        spec_encode_varint(self.id)
            + spec_encode_code(self.code)
            + spec_encode_string(self.reason)
            + spec_encode_varint(self.track_alias)
    }

    /// Reads one `SubscribeError` body from the front of `s`: the fields in order,
    /// and the first field that fails gives its error.
    pub open spec fn spec_decode(s: Seq<u8>) -> Result<(SubscribeErrorView, Seq<u8>), DecodeError> {
        match spec_decode_varint(s) {
            Err(e) => Err(e),
            Ok((id, s1)) => match spec_decode_code(s1) {
                Err(e) => Err(e),
                Ok((code, s2)) => match spec_decode_string(s2) {
                    Err(e) => Err(e),
                    Ok((reason, s3)) => match spec_decode_varint(s3) {
                        Err(e) => Err(e),
                        Ok((track_alias, rest)) => Ok(
                            (SubscribeErrorView { id, code, reason, track_alias }, rest),
                        ),
                    },
                },
            },
        }
    }

    /// Decoding the encoding of a message that fits gives the message
    /// back, field for field, and leaves what followed.
    pub proof fn lemma_round_trip(self, rest: Seq<u8>)
        requires
            self.spec_fits(),
        ensures
            Self::spec_decode(self.spec_encode() + rest) == Ok::<
                (SubscribeErrorView, Seq<u8>),
                DecodeError,
            >((self, rest)),
    {
        let a1 = spec_encode_varint(self.id);
        let a2 = spec_encode_code(self.code);
        let a3 = spec_encode_string(self.reason);
        let a4 = spec_encode_varint(self.track_alias);
        let s3 = a4 + rest;
        let s2 = a3 + s3;
        let s1 = a2 + s2;
        assert(self.spec_encode() + rest == a1 + s1) by {
            lemma_concat_assoc(a1 + a2 + a3, a4, rest);
            lemma_concat_assoc(a1 + a2, a3, s3);
            lemma_concat_assoc(a1, a2, s2);
        }
        lemma_varint_round_trip(self.id, s1);
        lemma_code_round_trip(self.code, s2);
        lemma_string_round_trip(self.reason, s3);
        lemma_varint_round_trip(self.track_alias, rest);
        Self::lemma_steps(self, a1 + s1, s1, s2, s3, rest);
    }

    proof fn lemma_steps(
        v: SubscribeErrorView,
        s0: Seq<u8>,
        s1: Seq<u8>,
        s2: Seq<u8>,
        s3: Seq<u8>,
        rest: Seq<u8>,
    )
        requires
            spec_decode_varint(s0) == Ok::<(u64, Seq<u8>), DecodeError>((v.id, s1)),
            spec_decode_code(s1) == Ok::<(u32, Seq<u8>), DecodeError>((v.code, s2)),
            spec_decode_string(s2) == Ok::<(Seq<char>, Seq<u8>), DecodeError>((v.reason, s3)),
            spec_decode_varint(s3) == Ok::<(u64, Seq<u8>), DecodeError>((v.track_alias, rest)),
        ensures
            Self::spec_decode(s0) == Ok::<(SubscribeErrorView, Seq<u8>), DecodeError>((v, rest)),
    {
    }
}

impl SubscribeError {
    /// Whether every number and every length of the message can be encoded.
    pub fn fits(&self) -> (b: bool)
        ensures
            b == self@.spec_fits(),
    {
        self.id <= VARINT_MAX
            && string_fits(self.reason.as_str())
            && self.track_alias <= VARINT_MAX
    }

    /// Appends the body of the message to `out`. A message that does not
    /// fit is refused with `BoundsExceeded` and leaves `out` as it was.
    pub fn encode(&self, out: &mut Vec<u8>) -> (r: Result<(), EncodeError>)
        ensures
            self@.spec_fits() ==> r is Ok && final(out)@ == old(out)@
                + self@.spec_encode(),
            !self@.spec_fits() ==> r == Err::<(), EncodeError>(EncodeError::BoundsExceeded)
                && final(out)@ == old(out)@,
    {
        if !self.fits() {
            return Err(EncodeError::BoundsExceeded);
        }
        let _ = encode_varint(self.id, out);
        encode_code(self.code, out);
        let _ = encode_string(self.reason.as_str(), out);
        let _ = encode_varint(self.track_alias, out);
        assert(out@ =~= old(out)@ + self@.spec_encode());
        Ok(())
    }

    /// Reads one `SubscribeError` body at `pos`. On success the second component is
    /// the position just behind it.
    pub fn decode_at(buf: &[u8], pos: usize) -> (r: Result<(SubscribeError, usize), DecodeError>)
        requires
            pos <= buf@.len(),
        ensures
            match r {
                Ok((m, next)) => pos < next <= buf@.len() && m@.spec_fits()
                    && SubscribeErrorView::spec_decode(buf@.skip(pos as int)) == Ok::<
                        (SubscribeErrorView, Seq<u8>),
                        DecodeError,
                    >((m@, buf@.skip(next as int))),
                Err(e) => SubscribeErrorView::spec_decode(buf@.skip(pos as int)) == Err::<
                    (SubscribeErrorView, Seq<u8>),
                    DecodeError,
                >(e),
            },
    {
        let (id, p1) = decode_varint_at(buf, pos)?;
        let (code, p2) = decode_code_at(buf, p1)?;
        let (reason, p3) = decode_string_at(buf, p2)?;
        let (track_alias, next) = decode_varint_at(buf, p3)?;
        proof {
            lemma_decoded_string_fits(buf@.skip(p2 as int));
        }
        Ok((SubscribeError { id, code, reason, track_alias }, next))
    }

    /// Reads one `SubscribeError` body from the front of `buf`: the message and the
    /// number of bytes it took.
    pub fn decode(buf: &[u8]) -> (r: Result<(SubscribeError, usize), DecodeError>)
        ensures
            match r {
                Ok((m, n)) => 0 < n <= buf@.len() && m@.spec_fits()
                    && SubscribeErrorView::spec_decode(buf@) == Ok::<
                        (SubscribeErrorView, Seq<u8>),
                        DecodeError,
                    >((m@, buf@.skip(n as int))),
                Err(e) => SubscribeErrorView::spec_decode(buf@) == Err::<
                    (SubscribeErrorView, Seq<u8>),
                    DecodeError,
                >(e),
            },
    {
        assert(buf@.skip(0) =~= buf@);
        Self::decode_at(buf, 0)
    }
}

} // verus!
