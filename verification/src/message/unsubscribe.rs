//! The withdrawal of a subscription.
use vstd::prelude::*;

use crate::coding::varint::decode_varint_at;
use crate::coding::varint::encode_varint;
use crate::coding::varint::lemma_varint_round_trip;
use crate::coding::varint::spec_decode_varint;
use crate::coding::varint::spec_encode_varint;
use crate::coding::varint::VARINT_MAX;
use crate::error::DecodeError;
use crate::error::EncodeError;

verus! {

/// Sent by the subscriber to end a subscription.
#[derive(Clone, Copy, Debug, PartialEq, Eq, Structural)]
pub struct Unsubscribe {
    /// The subscription id.
    pub id: u64,
}

impl Unsubscribe {
    /// Every number and every length of the message can be encoded.
    pub open spec fn spec_fits(self) -> bool {
        self.id <= VARINT_MAX
    }

    /// The body of the message, meaningful where it fits.
    pub open spec fn spec_encode(self) -> Seq<u8> {
        spec_encode_varint(self.id)
    }

    /// Reads one `Unsubscribe` body from the front of `s`: the fields in order,
    /// and the first field that fails gives its error.
    pub open spec fn spec_decode(s: Seq<u8>) -> Result<(Unsubscribe, Seq<u8>), DecodeError> {
        match spec_decode_varint(s) {
            Err(e) => Err(e),
            Ok((id, rest)) => Ok((Unsubscribe { id }, rest)),
        }
    }

    /// Decoding the encoding of a message that fits gives the message
    /// back, field for field, and leaves what followed.
    pub proof fn lemma_round_trip(self, rest: Seq<u8>)
        requires
            self.spec_fits(),
        ensures
            Self::spec_decode(self.spec_encode() + rest) == Ok::<
                (Unsubscribe, Seq<u8>),
                DecodeError,
            >((self, rest)),
    {
        lemma_varint_round_trip(self.id, rest);
    }
}

impl Unsubscribe {
    /// Whether every number and every length of the message can be encoded.
    pub fn fits(&self) -> (b: bool)
        ensures
            b == self.spec_fits(),
    {
        self.id <= VARINT_MAX
    }

    /// Appends the body of the message to `out`. A message that does not
    /// fit is refused with `BoundsExceeded` and leaves `out` as it was.
    pub fn encode(&self, out: &mut Vec<u8>) -> (r: Result<(), EncodeError>)
        ensures
            self.spec_fits() ==> r is Ok && final(out)@ == old(out)@
                + self.spec_encode(),
            !self.spec_fits() ==> r == Err::<(), EncodeError>(EncodeError::BoundsExceeded)
                && final(out)@ == old(out)@,
    {
        if !self.fits() {
            return Err(EncodeError::BoundsExceeded);
        }
        let _ = encode_varint(self.id, out);
        assert(out@ =~= old(out)@ + self.spec_encode());
        Ok(())
    }

    /// Reads one `Unsubscribe` body at `pos`. On success the second component is
    /// the position just behind it.
    pub fn decode_at(buf: &[u8], pos: usize) -> (r: Result<(Unsubscribe, usize), DecodeError>)
        requires
            pos <= buf@.len(),
        ensures
            match r {
                Ok((m, next)) => pos < next <= buf@.len() && m.spec_fits()
                    && Unsubscribe::spec_decode(buf@.skip(pos as int)) == Ok::<
                        (Unsubscribe, Seq<u8>),
                        DecodeError,
                    >((m, buf@.skip(next as int))),
                Err(e) => Unsubscribe::spec_decode(buf@.skip(pos as int)) == Err::<
                    (Unsubscribe, Seq<u8>),
                    DecodeError,
                >(e),
            },
    {
        let (id, next) = decode_varint_at(buf, pos)?;
        Ok((Unsubscribe { id }, next))
    }

    /// Reads one `Unsubscribe` body from the front of `buf`: the message and the
    /// number of bytes it took.
    pub fn decode(buf: &[u8]) -> (r: Result<(Unsubscribe, usize), DecodeError>)
        ensures
            match r {
                Ok((m, n)) => 0 < n <= buf@.len() && m.spec_fits()
                    && Unsubscribe::spec_decode(buf@) == Ok::<
                        (Unsubscribe, Seq<u8>),
                        DecodeError,
                    >((m, buf@.skip(n as int))),
                Err(e) => Unsubscribe::spec_decode(buf@) == Err::<
                    (Unsubscribe, Seq<u8>),
                    DecodeError,
                >(e),
            },
    {
        assert(buf@.skip(0) =~= buf@);
        Self::decode_at(buf, 0)
    }
}

} // verus!
