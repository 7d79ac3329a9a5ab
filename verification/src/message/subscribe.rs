//! The request for all future objects of a track.
use vstd::prelude::*;

use crate::coding::params::lemma_params_round_trip;
use crate::coding::params::spec_decode_params;
use crate::coding::params::spec_encode_params;
use crate::coding::params::spec_params_distinct;
use crate::coding::params::spec_params_fit;
use crate::coding::params::Params;
use crate::coding::bytes::lemma_concat_assoc;
use crate::coding::string::decode_string_at;
use crate::coding::string::string_fits;
use crate::coding::string::encode_string;
use crate::coding::string::lemma_string_round_trip;
use crate::coding::string::spec_decode_string;
use crate::coding::string::spec_encode_string;
use crate::coding::string::spec_string_fits;
use crate::coding::varint::decode_varint_at;
use crate::coding::varint::encode_varint;
use crate::coding::varint::lemma_varint_round_trip;
use crate::coding::varint::spec_decode_varint;
use crate::coding::varint::spec_encode_varint;
use crate::coding::varint::VARINT_MAX;
use crate::error::DecodeError;
use crate::error::EncodeError;

verus! {

/// Which objects of the track a subscription asks for.
#[derive(Clone, Copy, Debug, PartialEq, Eq, Structural)]
pub enum FilterType {
    /// From the start of the newest group.
    LatestGroup,
    /// From the newest object.
    LatestObject,
    /// From a given start pair on.
    AbsoluteStart,
    /// Between a given start pair and a given end pair.
    AbsoluteRange,
}

impl FilterType {
    /// The number that stands for the filter on the wire.
    pub open spec fn spec_id(self) -> u64 {
        match self {
            FilterType::LatestGroup => 1,
            FilterType::LatestObject => 2,
            FilterType::AbsoluteStart => 3,
            FilterType::AbsoluteRange => 4,
        }
    }

    /// The filter that `id` stands for, if any.
    pub open spec fn spec_from_id(id: u64) -> Option<FilterType> {
        if id == 1 {
            Some(FilterType::LatestGroup)
        } else if id == 2 {
            Some(FilterType::LatestObject)
        } else if id == 3 {
            Some(FilterType::AbsoluteStart)
        } else if id == 4 {
            Some(FilterType::AbsoluteRange)
        } else {
            None
        }
    }

    #[verifier::when_used_as_spec(spec_id)]
    pub fn id(self) -> (r: u64)
        ensures
            r == self.spec_id(),
    {
        match self {
            FilterType::LatestGroup => 1,
            FilterType::LatestObject => 2,
            FilterType::AbsoluteStart => 3,
            FilterType::AbsoluteRange => 4,
        }
    }

    pub fn from_id(id: u64) -> (r: Option<FilterType>)
        ensures
            r == Self::spec_from_id(id),
    {
        if id == 1 {
            Some(FilterType::LatestGroup)
        } else if id == 2 {
            Some(FilterType::LatestObject)
        } else if id == 3 {
            Some(FilterType::AbsoluteStart)
        } else if id == 4 {
            Some(FilterType::AbsoluteRange)
        } else {
            None
        }
    }
}

/// Where a subscription begins or ends, relative to what the publisher
/// holds.
#[derive(Clone, Copy, Debug, PartialEq, Eq, Structural)]
pub enum SubscribeLocation {
    Absent,
    Absolute(u64),
    Latest(u64),
    Future(u64),
}

impl SubscribeLocation {
    /// The number that stands for the kind of location on the wire.
    pub open spec fn spec_id(&self) -> u64 {
        match *self {
            SubscribeLocation::Absent => 0,
            SubscribeLocation::Absolute(_) => 1,
            SubscribeLocation::Latest(_) => 2,
            SubscribeLocation::Future(_) => 3,
        }
    }

    /// The number that the location carries; 0 for `Absent`.
    pub open spec fn spec_value(&self) -> u64 {
        match *self {
            SubscribeLocation::Absent => 0,
            SubscribeLocation::Absolute(v) => v,
            SubscribeLocation::Latest(v) => v,
            SubscribeLocation::Future(v) => v,
        }
    }

    /// The kind, followed by the number where the kind carries one.
    pub open spec fn spec_encode(self) -> Seq<u8> {
        match self {
            SubscribeLocation::Absent => spec_encode_varint(0),
            SubscribeLocation::Absolute(v) => spec_encode_varint(1) + spec_encode_varint(v),
            SubscribeLocation::Latest(v) => spec_encode_varint(2) + spec_encode_varint(v),
            SubscribeLocation::Future(v) => spec_encode_varint(3) + spec_encode_varint(v),
        }
    }

    /// Reads one location from the front of `s`; a kind above 3 gives
    /// `InvalidSubscribeLocation`.
    pub open spec fn spec_decode(s: Seq<u8>) -> Result<(SubscribeLocation, Seq<u8>), DecodeError> {
        match spec_decode_varint(s) {
            Err(e) => Err(e),
            Ok((kind, rest)) => if kind == 0 {
                Ok((SubscribeLocation::Absent, rest))
            } else if kind > 3 {
                Err(DecodeError::InvalidSubscribeLocation)
            } else {
                match spec_decode_varint(rest) {
                    Err(e) => Err(e),
                    Ok((v, after)) => if kind == 1 {
                        Ok((SubscribeLocation::Absolute(v), after))
                    } else if kind == 2 {
                        Ok((SubscribeLocation::Latest(v), after))
                    } else {
                        Ok((SubscribeLocation::Future(v), after))
                    },
                }
            },
        }
    }

    /// Decoding what was encoded gives the location back.
    pub proof fn lemma_round_trip(self, rest: Seq<u8>)
        requires
            self.spec_value() <= VARINT_MAX,
        ensures
            Self::spec_decode(self.spec_encode() + rest) == Ok::<
                (SubscribeLocation, Seq<u8>),
                DecodeError,
            >((self, rest)),
    {
        match self {
            SubscribeLocation::Absent => {
                lemma_varint_round_trip(0, rest);
            },
            _ => {
                let v = self.spec_value();
                let k = self.spec_id();
                assert(self.spec_encode() + rest =~= spec_encode_varint(k) + (spec_encode_varint(v)
                    + rest));
                lemma_varint_round_trip(k, spec_encode_varint(v) + rest);
                lemma_varint_round_trip(v, rest);
            },
        }
    }

    #[verifier::when_used_as_spec(spec_id)]
    pub fn id(&self) -> (r: u64)
        ensures
            r == self.spec_id(),
    {
        match self {
            SubscribeLocation::Absent => 0,
            SubscribeLocation::Absolute(_) => 1,
            SubscribeLocation::Latest(_) => 2,
            SubscribeLocation::Future(_) => 3,
        }
    }

    /// The number that the location carries; 0 for `Absent`.
    #[verifier::when_used_as_spec(spec_value)]
    pub fn value(&self) -> (r: u64)
        ensures
            r == self.spec_value(),
    {
        match self {
            SubscribeLocation::Absent => 0,
            SubscribeLocation::Absolute(v) => *v,
            SubscribeLocation::Latest(v) => *v,
            SubscribeLocation::Future(v) => *v,
        }
    }

    /// Appends the location to `out`. A number above `VARINT_MAX` is refused
    /// with `BoundsExceeded` and leaves `out` as it was.
    pub fn encode(&self, out: &mut Vec<u8>) -> (r: Result<(), EncodeError>)
        ensures
            self.spec_value() <= VARINT_MAX ==> r is Ok && final(out)@ == old(out)@
                + self.spec_encode(),
            self.spec_value() > VARINT_MAX ==> r == Err::<(), EncodeError>(
                EncodeError::BoundsExceeded,
            ) && final(out)@ == old(out)@,
    {
        if self.value() > VARINT_MAX {
            return Err(EncodeError::BoundsExceeded);
        }
        let _ = encode_varint(self.id(), out);
        match self {
            SubscribeLocation::Absent => {},
            SubscribeLocation::Absolute(v) => {
                let _ = encode_varint(*v, out);
            },
            SubscribeLocation::Latest(v) => {
                let _ = encode_varint(*v, out);
            },
            SubscribeLocation::Future(v) => {
                let _ = encode_varint(*v, out);
            },
        }
        assert(out@ =~= old(out)@ + self.spec_encode());
        Ok(())
    }

    /// Reads one location at `pos`. On success the second component is the
    /// position just behind it.
    pub fn decode_at(buf: &[u8], pos: usize) -> (r: Result<(SubscribeLocation, usize), DecodeError>)
        requires
            pos <= buf@.len(),
        ensures
            match r {
                Ok((l, next)) => pos < next <= buf@.len() && l.spec_value() <= VARINT_MAX
                    && Self::spec_decode(buf@.skip(pos as int)) == Ok::<
                    (SubscribeLocation, Seq<u8>),
                    DecodeError,
                >((l, buf@.skip(next as int))),
                Err(e) => Self::spec_decode(buf@.skip(pos as int)) == Err::<
                    (SubscribeLocation, Seq<u8>),
                    DecodeError,
                >(e),
            },
    {
        let (kind, after_kind) = decode_varint_at(buf, pos)?;
        if kind == 0 {
            return Ok((SubscribeLocation::Absent, after_kind));
        }
        if kind > 3 {
            return Err(DecodeError::InvalidSubscribeLocation);
        }
        let (v, next) = decode_varint_at(buf, after_kind)?;
        if kind == 1 {
            Ok((SubscribeLocation::Absolute(v), next))
        } else if kind == 2 {
            Ok((SubscribeLocation::Latest(v), next))
        } else {
            Ok((SubscribeLocation::Future(v), next))
        }
    }
}

/// A group location and an object location.
#[derive(Clone, Copy, Debug, PartialEq, Eq, Structural)]
pub struct SubscribePair {
    pub group: SubscribeLocation,
    pub object: SubscribeLocation,
}

impl SubscribePair {
    /// Both numbers can be encoded.
    pub open spec fn spec_fits(&self) -> bool {
        self.group.spec_value() <= VARINT_MAX && self.object.spec_value() <= VARINT_MAX
    }

    /// An object location stands only beside a group location.
    pub open spec fn spec_anchored(&self) -> bool {
        !(self.group == SubscribeLocation::Absent && self.object != SubscribeLocation::Absent)
    }

    /// The group location, then the object location.
    pub open spec fn spec_encode(self) -> Seq<u8> {
        self.group.spec_encode() + self.object.spec_encode()
    }

    /// Reads one pair from the front of `s`.
    pub open spec fn spec_decode(s: Seq<u8>) -> Result<(SubscribePair, Seq<u8>), DecodeError> {
        match SubscribeLocation::spec_decode(s) {
            Err(e) => Err(e),
            Ok((group, rest)) => match SubscribeLocation::spec_decode(rest) {
                Err(e) => Err(e),
                Ok((object, after)) => Ok((SubscribePair { group, object }, after)),
            },
        }
    }

    /// Decoding what was encoded gives the pair back.
    pub proof fn lemma_round_trip(self, rest: Seq<u8>)
        requires
            self.spec_fits(),
        ensures
            Self::spec_decode(self.spec_encode() + rest) == Ok::<
                (SubscribePair, Seq<u8>),
                DecodeError,
            >((self, rest)),
            self.spec_encode().len() >= 2,
    {
        assert(self.spec_encode() + rest =~= self.group.spec_encode() + (self.object.spec_encode()
            + rest));
        self.group.lemma_round_trip(self.object.spec_encode() + rest);
        self.object.lemma_round_trip(rest);
    }

    #[verifier::when_used_as_spec(spec_anchored)]
    pub fn anchored(&self) -> (b: bool)
        ensures
            b == self.spec_anchored(),
    {
        !(self.group.id() == 0 && self.object.id() != 0)
    }

    #[verifier::when_used_as_spec(spec_fits)]
    pub fn fits(&self) -> (b: bool)
        ensures
            b == self.spec_fits(),
    {
        self.group.value() <= VARINT_MAX && self.object.value() <= VARINT_MAX
    }

    /// Appends the pair to `out`. A number above `VARINT_MAX` is refused with
    /// `BoundsExceeded` and leaves `out` as it was.
    pub fn encode(&self, out: &mut Vec<u8>) -> (r: Result<(), EncodeError>)
        ensures
            self.spec_fits() ==> r is Ok && final(out)@ == old(out)@ + self.spec_encode(),
            !self.spec_fits() ==> r == Err::<(), EncodeError>(EncodeError::BoundsExceeded)
                && final(out)@ == old(out)@,
    {
        if !self.fits() {
            return Err(EncodeError::BoundsExceeded);
        }
        let _ = self.group.encode(out);
        let _ = self.object.encode(out);
        assert(out@ =~= old(out)@ + self.spec_encode());
        Ok(())
    }

    /// Reads one pair at `pos`. On success the second component is the
    /// position just behind it.
    pub fn decode_at(buf: &[u8], pos: usize) -> (r: Result<(SubscribePair, usize), DecodeError>)
        requires
            pos <= buf@.len(),
        ensures
            match r {
                Ok((p, next)) => pos < next <= buf@.len() && p.spec_fits() && Self::spec_decode(
                    buf@.skip(pos as int),
                ) == Ok::<(SubscribePair, Seq<u8>), DecodeError>((p, buf@.skip(next as int))),
                Err(e) => Self::spec_decode(buf@.skip(pos as int)) == Err::<
                    (SubscribePair, Seq<u8>),
                    DecodeError,
                >(e),
            },
    {
        let (group, after_group) = SubscribeLocation::decode_at(buf, pos)?;
        let (object, next) = SubscribeLocation::decode_at(buf, after_group)?;
        Ok((SubscribePair { group, object }, next))
    }
}

/// Sent by the subscriber to request all future objects of a track. Objects
/// then name the track by the alias instead of the full name.
#[derive(Clone, Debug, PartialEq, Eq)]
pub struct Subscribe {
    /// The subscription id.
    pub id: u64,
    pub track_alias: u64,
    pub track_namespace: String,
    pub track_name: String,
    pub filter_type: FilterType,
    /// The start pair, for the two absolute filters.
    pub start: Option<SubscribePair>,
    /// The end pair, for the range filter.
    pub end: Option<SubscribePair>,
    /// Optional parameters.
    pub params: Params,
}

/// What a `Subscribe` holds, as plain values.
pub struct SubscribeView {
    pub id: u64,
    pub track_alias: u64,
    pub track_namespace: Seq<char>,
    pub track_name: Seq<char>,
    pub filter_type: FilterType,
    pub start: Option<SubscribePair>,
    pub end: Option<SubscribePair>,
    pub params: Seq<(u64, Seq<u8>)>,
}

impl View for Subscribe {
    type V = SubscribeView;

    open spec fn view(&self) -> SubscribeView {
        SubscribeView {
            id: self.id,
            track_alias: self.track_alias,
            track_namespace: self.track_namespace@,
            track_name: self.track_name@,
            filter_type: self.filter_type,
            start: self.start,
            end: self.end,
            params: self.params@,
        }
    }
}

impl SubscribeView {
    /// The pairs that the filter requires are there.
    pub open spec fn complete(self) -> bool {
        match self.filter_type {
            FilterType::AbsoluteStart => self.start is Some,
            FilterType::AbsoluteRange => self.start is Some && self.end is Some,
            _ => true,
        }
    }

    /// The start pair that goes on the wire.
    pub open spec fn wire_start(self) -> Option<SubscribePair> {
        match self.filter_type {
            FilterType::AbsoluteStart => self.start,
            FilterType::AbsoluteRange => self.start,
            _ => None,
        }
    }

    /// The end pair that goes on the wire.
    pub open spec fn wire_end(self) -> Option<SubscribePair> {
        match self.filter_type {
            FilterType::AbsoluteRange => self.end,
            _ => None,
        }
    }

    /// Every number and every length that goes on the wire can be encoded.
    pub open spec fn spec_fits(self) -> bool {
        &&& self.id <= VARINT_MAX
        &&& self.track_alias <= VARINT_MAX
        &&& spec_string_fits(self.track_namespace)
        &&& spec_string_fits(self.track_name)
        &&& (self.wire_start() matches Some(p) ==> p.spec_fits())
        &&& (self.wire_end() matches Some(p) ==> p.spec_fits())
        &&& spec_params_fit(self.params)
    }

    /// The message decodes to itself: it is complete, it fits, it holds
    /// exactly the pairs that its filter puts on the wire, no object
    /// location without a group location, and no parameter twice.
    pub open spec fn wf(self) -> bool {
        &&& self.complete()
        &&& self.spec_fits()
        &&& self.start == self.wire_start()
        &&& self.end == self.wire_end()
        &&& (self.start matches Some(p) ==> p.spec_anchored())
        &&& (self.end matches Some(p) ==> p.spec_anchored())
        &&& spec_params_distinct(self.params)
    }

    /// The pairs as they go on the wire: none, the start pair, or both.
    pub open spec fn spec_encode_pairs(self) -> Seq<u8> {
        (match self.wire_start() {
            Some(p) => p.spec_encode(),
            None => Seq::empty(),
        }) + (match self.wire_end() {
            Some(p) => p.spec_encode(),
            None => Seq::empty(),
        })
    }

    /// The body of the message, meaningful where it is complete and fits.
    pub open spec fn spec_encode(self) -> Seq<u8> {
        spec_encode_varint(self.id) + spec_encode_varint(self.track_alias) + spec_encode_string(
            self.track_namespace,
        ) + spec_encode_string(self.track_name) + spec_encode_varint(self.filter_type.spec_id())
            + self.spec_encode_pairs() + spec_encode_params(self.params)
    }
}

/// Reads the pairs that `filter` puts on the wire from the front of `s`. An
/// absolute filter with fewer octets left than its pairs need at the least
/// gives `MissingField`; an object location without a group location gives
/// `InvalidSubscribeLocation`.
pub open spec fn spec_decode_pairs(filter: FilterType, s: Seq<u8>) -> Result<
    (Option<SubscribePair>, Option<SubscribePair>, Seq<u8>),
    DecodeError,
> {
    match filter {
        FilterType::AbsoluteStart => if s.len() < 2 {
            Err(DecodeError::MissingField)
        } else {
            match SubscribePair::spec_decode(s) {
                Err(e) => Err(e),
                Ok((start, rest)) => if !start.spec_anchored() {
                    Err(DecodeError::InvalidSubscribeLocation)
                } else {
                    Ok((Some(start), None, rest))
                },
            }
        },
        FilterType::AbsoluteRange => if s.len() < 4 {
            Err(DecodeError::MissingField)
        } else {
            match SubscribePair::spec_decode(s) {
                Err(e) => Err(e),
                Ok((start, rest)) => match SubscribePair::spec_decode(rest) {
                    Err(e) => Err(e),
                    Ok((end, after)) => if !start.spec_anchored() || !end.spec_anchored() {
                        Err(DecodeError::InvalidSubscribeLocation)
                    } else {
                        Ok((Some(start), Some(end), after))
                    },
                },
            }
        },
        _ => Ok((None, None, s)),
    }
}

/// Reads one `Subscribe` body from the front of `s`. An unknown filter
/// gives `InvalidMessage` with the filter's number.
pub open spec fn spec_decode_subscribe(s: Seq<u8>) -> Result<(SubscribeView, Seq<u8>), DecodeError> {
    match spec_decode_varint(s) {
        Err(e) => Err(e),
        Ok((id, s1)) => match spec_decode_varint(s1) {
            Err(e) => Err(e),
            Ok((track_alias, s2)) => match spec_decode_string(s2) {
                Err(e) => Err(e),
                Ok((track_namespace, s3)) => match spec_decode_string(s3) {
                    Err(e) => Err(e),
                    Ok((track_name, s4)) => match spec_decode_varint(s4) {
                        Err(e) => Err(e),
                        Ok((filter, s5)) => match FilterType::spec_from_id(filter) {
                            None => Err(DecodeError::InvalidMessage(filter)),
                            Some(filter_type) => match spec_decode_pairs(filter_type, s5) {
                                Err(e) => Err(e),
                                Ok((start, end, s6)) => match spec_decode_params(s6) {
                                    Err(e) => Err(e),
                                    Ok((params, rest)) => Ok(
                                        (
                                            SubscribeView {
                                                id,
                                                track_alias,
                                                track_namespace,
                                                track_name,
                                                filter_type,
                                                start,
                                                end,
                                                params,
                                            },
                                            rest,
                                        ),
                                    ),
                                },
                            },
                        },
                    },
                },
            },
        },
    }
}

proof fn lemma_pairs_round_trip(v: SubscribeView, rest: Seq<u8>)
    requires
        v.wf(),
    ensures
        spec_decode_pairs(v.filter_type, v.spec_encode_pairs() + rest) == Ok::<
            (Option<SubscribePair>, Option<SubscribePair>, Seq<u8>),
            DecodeError,
        >((v.start, v.end, rest)),
{
    match v.filter_type {
        FilterType::AbsoluteStart => {
            let p = v.start->Some_0;
            p.lemma_round_trip(rest);
            assert(v.spec_encode_pairs() + rest =~= p.spec_encode() + rest);
        },
        FilterType::AbsoluteRange => {
            let p = v.start->Some_0;
            let q = v.end->Some_0;
            p.lemma_round_trip(q.spec_encode() + rest);
            q.lemma_round_trip(rest);
            assert(v.spec_encode_pairs() + rest =~= p.spec_encode() + (q.spec_encode() + rest));
        },
        _ => {
            assert(v.spec_encode_pairs() + rest =~= rest);
        },
    }
}

/// Decoding the encoding of a well-formed `Subscribe` gives it back, field
/// for field, and leaves what followed.
pub proof fn lemma_subscribe_round_trip(v: SubscribeView, rest: Seq<u8>)
    requires
        v.wf(),
    ensures
        spec_decode_subscribe(v.spec_encode() + rest) == Ok::<(SubscribeView, Seq<u8>), DecodeError>(
            (v, rest),
        ),
{
    let a1 = spec_encode_varint(v.id);
    let a2 = spec_encode_varint(v.track_alias);
    let a3 = spec_encode_string(v.track_namespace);
    let a4 = spec_encode_string(v.track_name);
    let a5 = spec_encode_varint(v.filter_type.spec_id());
    let a6 = v.spec_encode_pairs();
    let a7 = spec_encode_params(v.params);
    let s6 = a7 + rest;
    let s5 = a6 + s6;
    let s4 = a5 + s5;
    let s3 = a4 + s4;
    let s2 = a3 + s3;
    let s1 = a2 + s2;
    assert(v.spec_encode() + rest == a1 + s1) by {
        lemma_concat_assoc(a1 + a2 + a3 + a4 + a5 + a6, a7, rest);
        lemma_concat_assoc(a1 + a2 + a3 + a4 + a5, a6, s6);
        lemma_concat_assoc(a1 + a2 + a3 + a4, a5, s5);
        lemma_concat_assoc(a1 + a2 + a3, a4, s4);
        lemma_concat_assoc(a1 + a2, a3, s3);
        lemma_concat_assoc(a1, a2, s2);
    }
    lemma_varint_round_trip(v.id, s1);
    lemma_varint_round_trip(v.track_alias, s2);
    lemma_string_round_trip(v.track_namespace, s3);
    lemma_string_round_trip(v.track_name, s4);
    lemma_varint_round_trip(v.filter_type.spec_id(), s5);
    lemma_pairs_round_trip(v, s6);
    lemma_params_round_trip(v.params, rest);
    lemma_subscribe_steps(v, a1 + s1, s1, s2, s3, s4, s5, s6, rest);
}

proof fn lemma_subscribe_steps(
    v: SubscribeView,
    s0: Seq<u8>,
    s1: Seq<u8>,
    s2: Seq<u8>,
    s3: Seq<u8>,
    s4: Seq<u8>,
    s5: Seq<u8>,
    s6: Seq<u8>,
    rest: Seq<u8>,
)
    requires
        spec_decode_varint(s0) == Ok::<(u64, Seq<u8>), DecodeError>((v.id, s1)),
        spec_decode_varint(s1) == Ok::<(u64, Seq<u8>), DecodeError>((v.track_alias, s2)),
        spec_decode_string(s2) == Ok::<(Seq<char>, Seq<u8>), DecodeError>((v.track_namespace, s3)),
        spec_decode_string(s3) == Ok::<(Seq<char>, Seq<u8>), DecodeError>((v.track_name, s4)),
        spec_decode_varint(s4) == Ok::<(u64, Seq<u8>), DecodeError>(
            (v.filter_type.spec_id(), s5),
        ),
        spec_decode_pairs(v.filter_type, s5) == Ok::<
            (Option<SubscribePair>, Option<SubscribePair>, Seq<u8>),
            DecodeError,
        >((v.start, v.end, s6)),
        spec_decode_params(s6) == Ok::<(Seq<(u64, Seq<u8>)>, Seq<u8>), DecodeError>(
            (v.params, rest),
        ),
    ensures
        spec_decode_subscribe(s0) == Ok::<(SubscribeView, Seq<u8>), DecodeError>((v, rest)),
{
}

impl SubscribeView {
    /// Reads one `Subscribe` body from the front of `s`.
    pub open spec fn spec_decode(s: Seq<u8>) -> Result<(SubscribeView, Seq<u8>), DecodeError> {
        spec_decode_subscribe(s)
    }

    /// Decoding the encoding of a well-formed `Subscribe` gives it back,
    /// field for field, and leaves what followed.
    pub proof fn lemma_round_trip(self, rest: Seq<u8>)
        requires
            self.wf(),
        ensures
            Self::spec_decode(self.spec_encode() + rest) == Ok::<
                (SubscribeView, Seq<u8>),
                DecodeError,
            >((self, rest)),
    {
        lemma_subscribe_round_trip(self, rest);
    }
}

impl Subscribe {
    /// Whether `encode` has every pair that the filter requires.
    pub fn complete(&self) -> (b: bool)
        ensures
            b == self@.complete(),
    {
        match self.filter_type {
            FilterType::AbsoluteStart => self.start.is_some(),
            FilterType::AbsoluteRange => self.start.is_some() && self.end.is_some(),
            _ => true,
        }
    }

    /// Whether every number and length that goes on the wire can be encoded.
    pub fn fits(&self) -> (b: bool)
        ensures
            b == self@.spec_fits(),
    {
        let start_fits = match self.filter_type {
            FilterType::AbsoluteStart | FilterType::AbsoluteRange => match &self.start {
                Some(p) => p.fits(),
                None => true,
            },
            _ => true,
        };
        let end_fits = match self.filter_type {
            FilterType::AbsoluteRange => match &self.end {
                Some(p) => p.fits(),
                None => true,
            },
            _ => true,
        };
        self.id <= VARINT_MAX && self.track_alias <= VARINT_MAX && string_fits(self.track_namespace.as_str())
            && string_fits(self.track_name.as_str()) && start_fits
            && end_fits && self.params.fits()
    }

    /// Appends the body of the message to `out`. Where the filter requires a
    /// pair that is absent the answer is `MissingField`; otherwise, where a
    /// number or a length is above `VARINT_MAX`, it is `BoundsExceeded`. In
    /// both cases `out` stays as it was. A pair that the filter does not
    /// call for is not written.
    pub fn encode(&self, out: &mut Vec<u8>) -> (r: Result<(), EncodeError>)
        ensures
            self@.complete() && self@.spec_fits() ==> r is Ok && final(out)@ == old(out)@
                + self@.spec_encode(),
            !self@.complete() ==> r == Err::<(), EncodeError>(EncodeError::MissingField),
            self@.complete() && !self@.spec_fits() ==> r == Err::<(), EncodeError>(
                EncodeError::BoundsExceeded,
            ),
            r is Err ==> final(out)@ == old(out)@,
    {
        if !self.complete() {
            return Err(EncodeError::MissingField);
        }
        if !self.fits() {
            return Err(EncodeError::BoundsExceeded);
        }
        let _ = encode_varint(self.id, out);
        let _ = encode_varint(self.track_alias, out);
        let _ = encode_string(self.track_namespace.as_str(), out);
        let _ = encode_string(self.track_name.as_str(), out);
        let _ = encode_varint(self.filter_type.id(), out);
        let ghost before_pairs = out@;
        match self.filter_type {
            FilterType::AbsoluteStart => {
                if let Some(p) = &self.start {
                    let _ = p.encode(out);
                }
            },
            FilterType::AbsoluteRange => {
                if let Some(p) = &self.start {
                    let _ = p.encode(out);
                }
                if let Some(p) = &self.end {
                    let _ = p.encode(out);
                }
            },
            _ => {},
        }
        assert(out@ =~= before_pairs + self@.spec_encode_pairs());
        let _ = self.params.encode(out);
        assert(out@ =~= old(out)@ + self@.spec_encode());
        Ok(())
    }

    /// Reads one `Subscribe` body at `pos`. On success the second component
    /// is the position just behind it.
    pub fn decode_at(buf: &[u8], pos: usize) -> (r: Result<(Subscribe, usize), DecodeError>)
        requires
            pos <= buf@.len(),
        ensures
            match r {
                Ok((m, next)) => pos < next <= buf@.len() && spec_decode_subscribe(
                    buf@.skip(pos as int),
                ) == Ok::<(SubscribeView, Seq<u8>), DecodeError>((m@, buf@.skip(next as int))),
                Err(e) => spec_decode_subscribe(buf@.skip(pos as int)) == Err::<
                    (SubscribeView, Seq<u8>),
                    DecodeError,
                >(e),
            },
    {
        let (id, p1) = decode_varint_at(buf, pos)?;
        let (track_alias, p2) = decode_varint_at(buf, p1)?;
        let (track_namespace, p3) = decode_string_at(buf, p2)?;
        let (track_name, p4) = decode_string_at(buf, p3)?;
        let (filter, p5) = decode_varint_at(buf, p4)?;
        let filter_type = match FilterType::from_id(filter) {
            Some(f) => f,
            None => {
                return Err(DecodeError::InvalidMessage(filter));
            },
        };
        let mut start: Option<SubscribePair> = None;
        let mut end: Option<SubscribePair> = None;
        let mut p6 = p5;
        match filter_type {
            FilterType::AbsoluteStart => {
                if buf.len() - p5 < 2 {
                    return Err(DecodeError::MissingField);
                }
                let (s, n) = SubscribePair::decode_at(buf, p5)?;
                start = Some(s);
                p6 = n;
            },
            FilterType::AbsoluteRange => {
                if buf.len() - p5 < 4 {
                    return Err(DecodeError::MissingField);
                }
                let (s, n) = SubscribePair::decode_at(buf, p5)?;
                let (e, n2) = SubscribePair::decode_at(buf, n)?;
                start = Some(s);
                end = Some(e);
                p6 = n2;
            },
            _ => {},
        }
        if let Some(s) = &start {
            if !s.anchored() {
                return Err(DecodeError::InvalidSubscribeLocation);
            }
        }
        if let Some(e) = &end {
            if !e.anchored() {
                return Err(DecodeError::InvalidSubscribeLocation);
            }
        }
        let (params, next) = Params::decode_at(buf, p6)?;
        Ok(
            (
                Subscribe {
                    id,
                    track_alias,
                    track_namespace,
                    track_name,
                    filter_type,
                    start,
                    end,
                    params,
                },
                next,
            ),
        )
    }

    /// Reads one `Subscribe` body from the front of `buf`: the message and
    /// the number of bytes it took.
    pub fn decode(buf: &[u8]) -> (r: Result<(Subscribe, usize), DecodeError>)
        ensures
            match r {
                Ok((m, n)) => 0 < n <= buf@.len() && spec_decode_subscribe(buf@) == Ok::<
                    (SubscribeView, Seq<u8>),
                    DecodeError,
                >((m@, buf@.skip(n as int))),
                Err(e) => spec_decode_subscribe(buf@) == Err::<(SubscribeView, Seq<u8>), DecodeError>(
                    e,
                ),
            },
    {
        assert(buf@.skip(0) =~= buf@);
        Self::decode_at(buf, 0)
    }
}

} // verus!
