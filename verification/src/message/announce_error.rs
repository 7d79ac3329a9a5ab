//! The refusal of an announcement.
use vstd::prelude::*;

use crate::coding::bytes::lemma_concat_assoc;
use crate::coding::code::decode_code_at;
use crate::coding::code::encode_code;
use crate::coding::code::lemma_code_round_trip;
use crate::coding::code::spec_decode_code;
use crate::coding::code::spec_encode_code;
use crate::coding::string::decode_string_at;
use crate::coding::string::encode_string;
use crate::coding::string::lemma_decoded_string_fits;
use crate::coding::string::lemma_string_round_trip;
use crate::coding::string::spec_decode_string;
use crate::coding::string::spec_encode_string;
use crate::coding::string::spec_string_fits;
use crate::coding::string::string_fits;
use crate::error::DecodeError;
use crate::error::EncodeError;

verus! {

/// Sent in answer to an `Announce` to refuse the namespace.
#[derive(Clone, Debug, PartialEq, Eq)]
pub struct AnnounceError {
    /// The namespace that was announced.
    pub track_namespace: String,
    /// The numeric code of the reason.
    pub code: u32,
    /// The reason in words.
    pub reason: String,
}

/// What a `AnnounceError` holds, as plain values.
pub struct AnnounceErrorView {
    pub track_namespace: Seq<char>,
    pub code: u32,
    pub reason: Seq<char>,
}

impl View for AnnounceError {
    type V = AnnounceErrorView;

    open spec fn view(&self) -> AnnounceErrorView {
        AnnounceErrorView {
            track_namespace: self.track_namespace@,
            code: self.code,
            reason: self.reason@,
        }
    }
}

impl AnnounceErrorView {
    /// Every number and every length of the message can be encoded.
    pub open spec fn spec_fits(self) -> bool {
        &&& spec_string_fits(self.track_namespace)
        &&& spec_string_fits(self.reason)
    }

    /// The body of the message, meaningful where it fits.
    pub open spec fn spec_encode(self) -> Seq<u8> {
        spec_encode_string(self.track_namespace)
            + spec_encode_code(self.code)
            + spec_encode_string(self.reason)
    }

    /// Reads one `AnnounceError` body from the front of `s`: the fields in order,
    /// and the first field that fails gives its error.
    pub open spec fn spec_decode(s: Seq<u8>) -> Result<(AnnounceErrorView, Seq<u8>), DecodeError> {
        match spec_decode_string(s) {
            Err(e) => Err(e),
            Ok((track_namespace, s1)) => match spec_decode_code(s1) {
                Err(e) => Err(e),
                Ok((code, s2)) => match spec_decode_string(s2) {
                    Err(e) => Err(e),
                    Ok((reason, rest)) => Ok(
                        (AnnounceErrorView { track_namespace, code, reason }, rest),
                    ),
                },
            },
        }
    }

    /// Decoding the encoding of a message that fits gives the message
    /// back, field for field, and leaves what followed.
    pub proof fn lemma_round_trip(self, rest: Seq<u8>)
        requires
            self.spec_fits(),
        ensures
            Self::spec_decode(self.spec_encode() + rest) == Ok::<
                (AnnounceErrorView, Seq<u8>),
                DecodeError,
            >((self, rest)),
    {
        let a1 = spec_encode_string(self.track_namespace);
        let a2 = spec_encode_code(self.code);
        let a3 = spec_encode_string(self.reason);
        let s2 = a3 + rest;
        let s1 = a2 + s2;
        assert(self.spec_encode() + rest == a1 + s1) by {
            lemma_concat_assoc(a1 + a2, a3, rest);
            lemma_concat_assoc(a1, a2, s2);
        }
        lemma_string_round_trip(self.track_namespace, s1);
        lemma_code_round_trip(self.code, s2);
        lemma_string_round_trip(self.reason, rest);
        Self::lemma_steps(self, a1 + s1, s1, s2, rest);
    }

    proof fn lemma_steps(
        v: AnnounceErrorView,
        s0: Seq<u8>,
        s1: Seq<u8>,
        s2: Seq<u8>,
        rest: Seq<u8>,
    )
        requires
            spec_decode_string(s0) == Ok::<
                (Seq<char>, Seq<u8>),
                DecodeError,
            >((v.track_namespace, s1)),
            spec_decode_code(s1) == Ok::<(u32, Seq<u8>), DecodeError>((v.code, s2)),
            spec_decode_string(s2) == Ok::<(Seq<char>, Seq<u8>), DecodeError>((v.reason, rest)),
        ensures
            Self::spec_decode(s0) == Ok::<(AnnounceErrorView, Seq<u8>), DecodeError>((v, rest)),
    {
    }
}

impl AnnounceError {
    /// Whether every number and every length of the message can be encoded.
    pub fn fits(&self) -> (b: bool)
        ensures
            b == self@.spec_fits(),
    {
        string_fits(self.track_namespace.as_str())
            && string_fits(self.reason.as_str())
    }

    /// Appends the body of the message to `out`. A message that does not
    /// fit is refused with `BoundsExceeded` and leaves `out` as it was.
    pub fn encode(&self, out: &mut Vec<u8>) -> (r: Result<(), EncodeError>)
        ensures
            self@.spec_fits() ==> r is Ok && final(out)@ == old(out)@
                + self@.spec_encode(),
            !self@.spec_fits() ==> r == Err::<(), EncodeError>(EncodeError::BoundsExceeded)
                && final(out)@ == old(out)@,
    {
        if !self.fits() {
            return Err(EncodeError::BoundsExceeded);
        }
        let _ = encode_string(self.track_namespace.as_str(), out);
        encode_code(self.code, out);
        let _ = encode_string(self.reason.as_str(), out);
        assert(out@ =~= old(out)@ + self@.spec_encode());
        Ok(())
    }

    /// Reads one `AnnounceError` body at `pos`. On success the second component is
    /// the position just behind it.
    pub fn decode_at(buf: &[u8], pos: usize) -> (r: Result<(AnnounceError, usize), DecodeError>)
        requires
            pos <= buf@.len(),
        ensures
            match r {
                Ok((m, next)) => pos < next <= buf@.len() && m@.spec_fits()
                    && AnnounceErrorView::spec_decode(buf@.skip(pos as int)) == Ok::<
                        (AnnounceErrorView, Seq<u8>),
                        DecodeError,
                    >((m@, buf@.skip(next as int))),
                Err(e) => AnnounceErrorView::spec_decode(buf@.skip(pos as int)) == Err::<
                    (AnnounceErrorView, Seq<u8>),
                    DecodeError,
                >(e),
            },
    {
        let (track_namespace, p1) = decode_string_at(buf, pos)?;
        let (code, p2) = decode_code_at(buf, p1)?;
        let (reason, next) = decode_string_at(buf, p2)?;
        proof {
            lemma_decoded_string_fits(buf@.skip(pos as int));
            lemma_decoded_string_fits(buf@.skip(p2 as int));
        }
        Ok((AnnounceError { track_namespace, code, reason }, next))
    }

    /// Reads one `AnnounceError` body from the front of `buf`: the message and the
    /// number of bytes it took.
    pub fn decode(buf: &[u8]) -> (r: Result<(AnnounceError, usize), DecodeError>)
        ensures
            match r {
                Ok((m, n)) => 0 < n <= buf@.len() && m@.spec_fits()
                    && AnnounceErrorView::spec_decode(buf@) == Ok::<
                        (AnnounceErrorView, Seq<u8>),
                        DecodeError,
                    >((m@, buf@.skip(n as int))),
                Err(e) => AnnounceErrorView::spec_decode(buf@) == Err::<
                    (AnnounceErrorView, Seq<u8>),
                    DecodeError,
                >(e),
            },
    {
        assert(buf@.skip(0) =~= buf@);
        Self::decode_at(buf, 0)
    }
}

} // verus!
