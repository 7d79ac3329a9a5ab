//! The header of a group stream: every unidirectional stream starts with
//! the alias of the track, the sequence number of the group and the send
//! priority; the frames of the group follow.
use vstd::prelude::*;

use crate::coding::bytes::lemma_concat_assoc;
use crate::coding::varint::decode_varint_at;
use crate::coding::varint::encode_varint;
use crate::coding::varint::lemma_varint_round_trip;
use crate::coding::varint::spec_decode_varint;
use crate::coding::varint::spec_encode_varint;
use crate::coding::varint::VARINT_MAX;
use crate::error::DecodeError;
use crate::error::EncodeError;

verus! {

/// What a group stream says of itself before its frames.
#[derive(Clone, Copy, Debug, PartialEq, Eq, Structural)]
pub struct GroupHeader {
    /// The alias of the track, as the subscription fixed it.
    pub alias: u64,
    /// The sequence number of the group within its track.
    pub sequence: u64,
    /// The send priority: a scheduling hint for the transport.
    pub priority: u64,
}

impl GroupHeader {
    /// Every number and every length of the header can be encoded.
    pub open spec fn spec_fits(self) -> bool {
        &&& self.alias <= VARINT_MAX
        &&& self.sequence <= VARINT_MAX
        &&& self.priority <= VARINT_MAX
    }

    /// The header, meaningful where it fits.
    pub open spec fn spec_encode(self) -> Seq<u8> {
        spec_encode_varint(self.alias)
            + spec_encode_varint(self.sequence)
            + spec_encode_varint(self.priority)
    }

    /// Reads one `GroupHeader` from the front of `s`: the fields in order,
    /// and the first field that fails gives its error.
    pub open spec fn spec_decode(s: Seq<u8>) -> Result<(GroupHeader, Seq<u8>), DecodeError> {
        match spec_decode_varint(s) {
            Err(e) => Err(e),
            Ok((alias, s1)) => match spec_decode_varint(s1) {
                Err(e) => Err(e),
                Ok((sequence, s2)) => match spec_decode_varint(s2) {
                    Err(e) => Err(e),
                    Ok((priority, rest)) => Ok((GroupHeader { alias, sequence, priority }, rest)),
                },
            },
        }
    }

    /// Decoding the encoding of a header that fits gives the header
    /// back, field for field, and leaves what followed.
    pub proof fn lemma_round_trip(self, rest: Seq<u8>)
        requires
            self.spec_fits(),
        ensures
            Self::spec_decode(self.spec_encode() + rest) == Ok::<
                (GroupHeader, Seq<u8>),
                DecodeError,
            >((self, rest)),
    {
        let a1 = spec_encode_varint(self.alias);
        let a2 = spec_encode_varint(self.sequence);
        let a3 = spec_encode_varint(self.priority);
        let s2 = a3 + rest;
        let s1 = a2 + s2;
        assert(self.spec_encode() + rest == a1 + s1) by {
            lemma_concat_assoc(a1 + a2, a3, rest);
            lemma_concat_assoc(a1, a2, s2);
        }
        lemma_varint_round_trip(self.alias, s1);
        lemma_varint_round_trip(self.sequence, s2);
        lemma_varint_round_trip(self.priority, rest);
        Self::lemma_steps(self, a1 + s1, s1, s2, rest);
    }

    proof fn lemma_steps(
        v: GroupHeader,
        s0: Seq<u8>,
        s1: Seq<u8>,
        s2: Seq<u8>,
        rest: Seq<u8>,
    )
        requires
            spec_decode_varint(s0) == Ok::<(u64, Seq<u8>), DecodeError>((v.alias, s1)),
            spec_decode_varint(s1) == Ok::<(u64, Seq<u8>), DecodeError>((v.sequence, s2)),
            spec_decode_varint(s2) == Ok::<(u64, Seq<u8>), DecodeError>((v.priority, rest)),
        ensures
            Self::spec_decode(s0) == Ok::<(GroupHeader, Seq<u8>), DecodeError>((v, rest)),
    {
    }
}

impl GroupHeader {
    /// Whether every number and every length of the header can be encoded.
    pub fn fits(&self) -> (b: bool)
        ensures
            b == self.spec_fits(),
    {
        self.alias <= VARINT_MAX
            && self.sequence <= VARINT_MAX
            && self.priority <= VARINT_MAX
    }

    /// Appends the header to `out`. A header that does not
    /// fit is refused with `BoundsExceeded` and leaves `out` as it was.
    pub fn encode(&self, out: &mut Vec<u8>) -> (r: Result<(), EncodeError>)
        ensures
            self.spec_fits() ==> r is Ok && final(out)@ == old(out)@
                + self.spec_encode(),
            !self.spec_fits() ==> r == Err::<(), EncodeError>(EncodeError::BoundsExceeded)
                && final(out)@ == old(out)@,
    {
        if !self.fits() {
            return Err(EncodeError::BoundsExceeded);
        }
        let _ = encode_varint(self.alias, out);
        let _ = encode_varint(self.sequence, out);
        let _ = encode_varint(self.priority, out);
        assert(out@ =~= old(out)@ + self.spec_encode());
        Ok(())
    }

    /// Reads one `GroupHeader` at `pos`. On success the second component is
    /// the position just behind it.
    pub fn decode_at(buf: &[u8], pos: usize) -> (r: Result<(GroupHeader, usize), DecodeError>)
        requires
            pos <= buf@.len(),
        ensures
            match r {
                Ok((m, next)) => pos < next <= buf@.len() && m.spec_fits()
                    && GroupHeader::spec_decode(buf@.skip(pos as int)) == Ok::<
                        (GroupHeader, Seq<u8>),
                        DecodeError,
                    >((m, buf@.skip(next as int))),
                Err(e) => GroupHeader::spec_decode(buf@.skip(pos as int)) == Err::<
                    (GroupHeader, Seq<u8>),
                    DecodeError,
                >(e),
            },
    {
        let (alias, p1) = decode_varint_at(buf, pos)?;
        let (sequence, p2) = decode_varint_at(buf, p1)?;
        let (priority, next) = decode_varint_at(buf, p2)?;
        Ok((GroupHeader { alias, sequence, priority }, next))
    }

    /// Reads one `GroupHeader` from the front of `buf`: the header and the
    /// number of bytes it took.
    pub fn decode(buf: &[u8]) -> (r: Result<(GroupHeader, usize), DecodeError>)
        ensures
            match r {
                Ok((m, n)) => 0 < n <= buf@.len() && m.spec_fits()
                    && GroupHeader::spec_decode(buf@) == Ok::<
                        (GroupHeader, Seq<u8>),
                        DecodeError,
                    >((m, buf@.skip(n as int))),
                Err(e) => GroupHeader::spec_decode(buf@) == Err::<
                    (GroupHeader, Seq<u8>),
                    DecodeError,
                >(e),
            },
    {
        assert(buf@.skip(0) =~= buf@);
        Self::decode_at(buf, 0)
    }
}

} // verus!
