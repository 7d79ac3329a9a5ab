//! The withdrawal of an announcement.
use vstd::prelude::*;

use crate::coding::string::decode_string_at;
use crate::coding::string::encode_string;
use crate::coding::string::lemma_decoded_string_fits;
use crate::coding::string::lemma_string_round_trip;
use crate::coding::string::spec_decode_string;
use crate::coding::string::spec_encode_string;
use crate::coding::string::spec_string_fits;
use crate::coding::string::string_fits;
use crate::error::DecodeError;
use crate::error::EncodeError;

verus! {

/// Sent by the publisher to withdraw a namespace that it announced.
#[derive(Clone, Debug, PartialEq, Eq)]
pub struct Unannounce {
    /// The namespace that is withdrawn.
    pub track_namespace: String,
}

/// What a `Unannounce` holds, as plain values.
pub struct UnannounceView {
    pub track_namespace: Seq<char>,
}

impl View for Unannounce {
    type V = UnannounceView;

    open spec fn view(&self) -> UnannounceView {
        UnannounceView {
            track_namespace: self.track_namespace@,
        }
    }
}

impl UnannounceView {
    /// Every number and every length of the message can be encoded.
    pub open spec fn spec_fits(self) -> bool {
        spec_string_fits(self.track_namespace)
    }

    /// The body of the message, meaningful where it fits.
    pub open spec fn spec_encode(self) -> Seq<u8> {
        spec_encode_string(self.track_namespace)
    }

    /// Reads one `Unannounce` body from the front of `s`: the fields in order,
    /// and the first field that fails gives its error.
    pub open spec fn spec_decode(s: Seq<u8>) -> Result<(UnannounceView, Seq<u8>), DecodeError> {
        match spec_decode_string(s) {
            Err(e) => Err(e),
            Ok((track_namespace, rest)) => Ok((UnannounceView { track_namespace }, rest)),
        }
    }

    /// Decoding the encoding of a message that fits gives the message
    /// back, field for field, and leaves what followed.
    pub proof fn lemma_round_trip(self, rest: Seq<u8>)
        requires
            self.spec_fits(),
        ensures
            Self::spec_decode(self.spec_encode() + rest) == Ok::<
                (UnannounceView, Seq<u8>),
                DecodeError,
            >((self, rest)),
    {
        lemma_string_round_trip(self.track_namespace, rest);
    }
}

impl Unannounce {
    /// Whether every number and every length of the message can be encoded.
    pub fn fits(&self) -> (b: bool)
        ensures
            b == self@.spec_fits(),
    {
        string_fits(self.track_namespace.as_str())
    }

    /// Appends the body of the message to `out`. A message that does not
    /// fit is refused with `BoundsExceeded` and leaves `out` as it was.
    pub fn encode(&self, out: &mut Vec<u8>) -> (r: Result<(), EncodeError>)
        ensures
            self@.spec_fits() ==> r is Ok && final(out)@ == old(out)@
                + self@.spec_encode(),
            !self@.spec_fits() ==> r == Err::<(), EncodeError>(EncodeError::BoundsExceeded)
                && final(out)@ == old(out)@,
    {
        if !self.fits() {
            return Err(EncodeError::BoundsExceeded);
        }
        let _ = encode_string(self.track_namespace.as_str(), out);
        assert(out@ =~= old(out)@ + self@.spec_encode());
        Ok(())
    }

    /// Reads one `Unannounce` body at `pos`. On success the second component is
    /// the position just behind it.
    pub fn decode_at(buf: &[u8], pos: usize) -> (r: Result<(Unannounce, usize), DecodeError>)
        requires
            pos <= buf@.len(),
        ensures
            match r {
                Ok((m, next)) => pos < next <= buf@.len() && m@.spec_fits()
                    && UnannounceView::spec_decode(buf@.skip(pos as int)) == Ok::<
                        (UnannounceView, Seq<u8>),
                        DecodeError,
                    >((m@, buf@.skip(next as int))),
                Err(e) => UnannounceView::spec_decode(buf@.skip(pos as int)) == Err::<
                    (UnannounceView, Seq<u8>),
                    DecodeError,
                >(e),
            },
    {
        let (track_namespace, next) = decode_string_at(buf, pos)?;
        proof {
            lemma_decoded_string_fits(buf@.skip(pos as int));
        }
        Ok((Unannounce { track_namespace }, next))
    }

    /// Reads one `Unannounce` body from the front of `buf`: the message and the
    /// number of bytes it took.
    pub fn decode(buf: &[u8]) -> (r: Result<(Unannounce, usize), DecodeError>)
        ensures
            match r {
                Ok((m, n)) => 0 < n <= buf@.len() && m@.spec_fits()
                    && UnannounceView::spec_decode(buf@) == Ok::<
                        (UnannounceView, Seq<u8>),
                        DecodeError,
                    >((m@, buf@.skip(n as int))),
                Err(e) => UnannounceView::spec_decode(buf@) == Err::<
                    (UnannounceView, Seq<u8>),
                    DecodeError,
                >(e),
            },
    {
        assert(buf@.skip(0) =~= buf@);
        Self::decode_at(buf, 0)
    }
}

} // verus!
