//! The advertisement of a namespace.
use vstd::prelude::*;

use crate::coding::bytes::lemma_concat_assoc;
use crate::coding::params::lemma_params_front;
use crate::coding::params::lemma_params_round_trip;
use crate::coding::params::spec_decode_params;
use crate::coding::params::spec_encode_params;
use crate::coding::params::spec_params_distinct;
use crate::coding::params::spec_params_fit;
use crate::coding::params::spec_params_has;
use crate::coding::params::spec_params_value;
use crate::coding::params::spec_params_without;
use crate::coding::params::Params;
use crate::coding::string::decode_string_at;
use crate::coding::string::encode_string;
use crate::coding::string::lemma_string_round_trip;
use crate::coding::string::spec_decode_string;
use crate::coding::string::spec_encode_string;
use crate::coding::string::spec_string_fits;
use crate::coding::string::string_fits;
use crate::error::DecodeError;
use crate::error::EncodeError;

verus! {

/// The id of the parameter that carries the authentication token.
pub const AUTH_PARAM: u64 = 2;

/// Sent by the publisher to advertise a namespace.
#[derive(Clone, Debug, PartialEq, Eq)]
pub struct Announce {
    /// The namespace that is advertised.
    pub track_namespace: String,
    /// An authentication token, carried as parameter 2.
    pub auth: Option<Vec<u8>>,
    /// The parameters that mean nothing to this library.
    pub unknown: Params,
}

/// What an `Announce` holds, as plain values.
pub struct AnnounceView {
    pub track_namespace: Seq<char>,
    pub auth: Option<Seq<u8>>,
    pub unknown: Seq<(u64, Seq<u8>)>,
}

impl View for Announce {
    type V = AnnounceView;

    open spec fn view(&self) -> AnnounceView {
        AnnounceView {
            track_namespace: self.track_namespace@,
            auth: match self.auth {
                Some(a) => Some(a@),
                None => None,
            },
            unknown: self.unknown@,
        }
    }
}

impl AnnounceView {
    /// The parameters as they go on the wire: the token first, where there
    /// is one, then the others in their order.
    pub open spec fn wire_params(self) -> Seq<(u64, Seq<u8>)> {
        match self.auth {
            Some(a) => seq![(AUTH_PARAM, a)] + self.unknown,
            None => self.unknown,
        }
    }

    /// Every length and every id of the message can be encoded.
    pub open spec fn spec_fits(self) -> bool {
        &&& spec_string_fits(self.track_namespace)
        &&& spec_params_fit(self.wire_params())
    }

    /// The message decodes to itself: it fits, no parameter occurs twice,
    /// and parameter 2 is not among the others.
    pub open spec fn wf(self) -> bool {
        &&& self.spec_fits()
        &&& spec_params_distinct(self.unknown)
        &&& !spec_params_has(self.unknown, AUTH_PARAM)
    }

    /// The body of the message, meaningful where it fits.
    pub open spec fn spec_encode(self) -> Seq<u8> {
        spec_encode_string(self.track_namespace) + spec_encode_params(self.wire_params())
    }

    /// Reads one `Announce` body from the front of `s`: the namespace, then
    /// the parameters, of which parameter 2 becomes the token.
    pub open spec fn spec_decode(s: Seq<u8>) -> Result<(AnnounceView, Seq<u8>), DecodeError> {
        match spec_decode_string(s) {
            Err(e) => Err(e),
            Ok((track_namespace, s1)) => match spec_decode_params(s1) {
                Err(e) => Err(e),
                Ok((params, rest)) => Ok(
                    (
                        AnnounceView {
                            track_namespace,
                            auth: spec_params_value(params, AUTH_PARAM),
                            unknown: spec_params_without(params, AUTH_PARAM),
                        },
                        rest,
                    ),
                ),
            },
        }
    }

    /// Decoding the encoding of a well-formed `Announce` gives it back,
    /// field for field, and leaves what followed.
    pub proof fn lemma_round_trip(self, rest: Seq<u8>)
        requires
            self.wf(),
        ensures
            Self::spec_decode(self.spec_encode() + rest) == Ok::<
                (AnnounceView, Seq<u8>),
                DecodeError,
            >((self, rest)),
    {
        let wire = self.wire_params();
        let s1 = spec_encode_params(wire) + rest;
        lemma_concat_assoc(spec_encode_string(self.track_namespace), spec_encode_params(wire), rest);
        lemma_string_round_trip(self.track_namespace, s1);
        match self.auth {
            Some(a) => {
                lemma_params_front(AUTH_PARAM, a, self.unknown);
            },
            None => {},
        }
        lemma_params_round_trip(wire, rest);
    }
}

impl Announce {
    /// Whether every length and every id of the message can be encoded.
    pub fn fits(&self) -> (b: bool)
        ensures
            b == self@.spec_fits(),
    {
        string_fits(self.track_namespace.as_str()) && match &self.auth {
            None => self.unknown.fits(),
            Some(a) => self.unknown.fits_behind(AUTH_PARAM, a.as_slice()),
        }
    }

    /// Appends the body of the message to `out`. A message that does not
    /// fit is refused with `BoundsExceeded` and leaves `out` as it was.
    pub fn encode(&self, out: &mut Vec<u8>) -> (r: Result<(), EncodeError>)
        ensures
            self@.spec_fits() ==> r is Ok && final(out)@ == old(out)@ + self@.spec_encode(),
            !self@.spec_fits() ==> r == Err::<(), EncodeError>(EncodeError::BoundsExceeded)
                && final(out)@ == old(out)@,
    {
        if !self.fits() {
            return Err(EncodeError::BoundsExceeded);
        }
        let _ = encode_string(self.track_namespace.as_str(), out);
        match &self.auth {
            None => {
                let _ = self.unknown.encode(out);
            },
            Some(a) => {
                self.unknown.encode_behind(AUTH_PARAM, a.as_slice(), out);
            },
        }
        assert(out@ =~= old(out)@ + self@.spec_encode());
        Ok(())
    }

    /// Reads one `Announce` body at `pos`. On success the second component
    /// is the position just behind it.
    pub fn decode_at(buf: &[u8], pos: usize) -> (r: Result<(Announce, usize), DecodeError>)
        requires
            pos <= buf@.len(),
        ensures
            match r {
                Ok((m, next)) => pos < next <= buf@.len() && AnnounceView::spec_decode(
                    buf@.skip(pos as int),
                ) == Ok::<(AnnounceView, Seq<u8>), DecodeError>((m@, buf@.skip(next as int))),
                Err(e) => AnnounceView::spec_decode(buf@.skip(pos as int)) == Err::<
                    (AnnounceView, Seq<u8>),
                    DecodeError,
                >(e),
            },
    {
        let (track_namespace, p1) = decode_string_at(buf, pos)?;
        let (mut unknown, next) = Params::decode_at(buf, p1)?;
        let auth = unknown.remove(AUTH_PARAM);
        Ok((Announce { track_namespace, auth, unknown }, next))
    }

    /// Reads one `Announce` body from the front of `buf`: the message and
    /// the number of bytes it took.
    pub fn decode(buf: &[u8]) -> (r: Result<(Announce, usize), DecodeError>)
        ensures
            match r {
                Ok((m, n)) => 0 < n <= buf@.len() && AnnounceView::spec_decode(buf@) == Ok::<
                    (AnnounceView, Seq<u8>),
                    DecodeError,
                >((m@, buf@.skip(n as int))),
                Err(e) => AnnounceView::spec_decode(buf@) == Err::<
                    (AnnounceView, Seq<u8>),
                    DecodeError,
                >(e),
            },
    {
        assert(buf@.skip(0) =~= buf@);
        Self::decode_at(buf, 0)
    }
}

} // verus!
