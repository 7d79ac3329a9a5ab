//! The handshake messages: each side names the versions it speaks and the
//! role it plays.
use vstd::prelude::*;

use crate::coding::bytes::lemma_concat_assoc;
use crate::coding::numbers::decode_numbers_at;
use crate::coding::numbers::encode_numbers;
use crate::coding::numbers::lemma_numbers_round_trip;
use crate::coding::numbers::numbers_fit;
use crate::coding::numbers::spec_decode_numbers;
use crate::coding::numbers::spec_encode_numbers;
use crate::coding::numbers::spec_numbers_fit;
use crate::coding::params::lemma_params_front;
use crate::coding::params::lemma_params_round_trip;
use crate::coding::params::spec_decode_params;
use crate::coding::params::spec_encode_params;
use crate::coding::params::spec_params_distinct;
use crate::coding::params::spec_params_fit;
use crate::coding::params::spec_params_has;
use crate::coding::params::spec_params_value;
use crate::coding::params::spec_params_without;
use crate::coding::params::Params;
use crate::coding::varint::decode_varint_at;
use crate::coding::varint::encode_varint;
use crate::coding::varint::lemma_varint_round_trip;
use crate::coding::varint::spec_decode_varint;
use crate::coding::varint::spec_encode_varint;
use crate::coding::varint::VARINT_MAX;
use crate::error::DecodeError;
use crate::error::EncodeError;

verus! {

/// The id of the parameter that carries the role.
pub const ROLE_PARAM: u64 = 0;

/// Which way objects may flow for one side of a session.
#[derive(Clone, Copy, Debug, PartialEq, Eq, Structural)]
pub enum Role {
    /// This side only sends objects.
    Publisher,
    /// This side only receives objects.
    Subscriber,
    /// This side does both.
    Both,
}

impl Role {
    /// The number that stands for the role on the wire.
    pub open spec fn spec_id(&self) -> u64 {
        match *self {
            Role::Publisher => 1,
            Role::Subscriber => 2,
            Role::Both => 3,
        }
    }

    /// The role that `id` stands for, if any.
    pub open spec fn spec_from_id(id: u64) -> Option<Role> {
        if id == 1 {
            Some(Role::Publisher)
        } else if id == 2 {
            Some(Role::Subscriber)
        } else if id == 3 {
            Some(Role::Both)
        } else {
            None
        }
    }

    /// Whether this side sends objects.
    pub open spec fn spec_publishes(&self) -> bool {
        *self != Role::Subscriber
    }

    /// Whether this side receives objects.
    pub open spec fn spec_subscribes(&self) -> bool {
        *self != Role::Publisher
    }

    /// The value of the role parameter: the role's number as a
    /// variable-length integer.
    pub open spec fn spec_value(&self) -> Seq<u8> {
        spec_encode_varint(self.spec_id())
    }

    /// Reads the role from the value of the role parameter: one
    /// variable-length integer that fills the value. A value that ends too
    /// early gives `MissingField`; a number that is no role, or octets
    /// behind the number, give `InvalidMessage` with the number.
    pub open spec fn spec_from_value(value: Seq<u8>) -> Result<Role, DecodeError> {
        match spec_decode_varint(value) {
            Err(e) => Err(e),
            Ok((id, rest)) => match Role::spec_from_id(id) {
                Some(role) => if rest.len() == 0 {
                    Ok(role)
                } else {
                    Err(DecodeError::InvalidMessage(id))
                },
                None => Err(DecodeError::InvalidMessage(id)),
            },
        }
    }

    /// Reading the value of a role gives the role back.
    pub proof fn lemma_value_round_trip(&self)
        ensures
            Role::spec_from_value(self.spec_value()) == Ok::<Role, DecodeError>(*self),
            self.spec_value().len() <= VARINT_MAX,
    {
        lemma_varint_round_trip(self.spec_id(), Seq::empty());
        assert(self.spec_value() + Seq::<u8>::empty() =~= self.spec_value());
    }

    #[verifier::when_used_as_spec(spec_id)]
    pub fn id(&self) -> (r: u64)
        ensures
            r == self.spec_id(),
    {
        match self {
            Role::Publisher => 1,
            Role::Subscriber => 2,
            Role::Both => 3,
        }
    }

    pub fn from_id(id: u64) -> (r: Option<Role>)
        ensures
            r == Role::spec_from_id(id),
    {
        if id == 1 {
            Some(Role::Publisher)
        } else if id == 2 {
            Some(Role::Subscriber)
        } else if id == 3 {
            Some(Role::Both)
        } else {
            None
        }
    }

    /// Whether this side sends objects.
    #[verifier::when_used_as_spec(spec_publishes)]
    pub fn publishes(&self) -> (b: bool)
        ensures
            b == self.spec_publishes(),
    {
        match self {
            Role::Subscriber => false,
            _ => true,
        }
    }

    /// Whether this side receives objects.
    #[verifier::when_used_as_spec(spec_subscribes)]
    pub fn subscribes(&self) -> (b: bool)
        ensures
            b == self.spec_subscribes(),
    {
        match self {
            Role::Publisher => false,
            _ => true,
        }
    }

    /// The value of the role parameter.
    pub fn value(&self) -> (v: Vec<u8>)
        ensures
            v@ == self.spec_value(),
    {
        let mut v: Vec<u8> = Vec::new();
        let _ = encode_varint(self.id(), &mut v);
        assert(v@ =~= self.spec_value());
        v
    }

    /// Reads the role from the value of the role parameter.
    pub fn from_value(value: &[u8]) -> (r: Result<Role, DecodeError>)
        ensures
            r == Role::spec_from_value(value@),
    {
        assert(value@.skip(0) =~= value@);
        let (id, next) = decode_varint_at(value, 0)?;
        match Role::from_id(id) {
            Some(role) => if next == value.len() {
                Ok(role)
            } else {
                Err(DecodeError::InvalidMessage(id))
            },
            None => Err(DecodeError::InvalidMessage(id)),
        }
    }
}

/// The role of a decoded setup message: the role parameter must be there
/// and must hold a role.
pub open spec fn spec_setup_role(params: Seq<(u64, Seq<u8>)>) -> Result<Role, DecodeError> {
    match spec_params_value(params, ROLE_PARAM) {
        None => Err(DecodeError::MissingField),
        Some(value) => Role::spec_from_value(value),
    }
}

/// The parameters of a setup message as they go on the wire: the role
/// first, then the others in their order.
pub open spec fn spec_setup_params(role: Role, params: Seq<(u64, Seq<u8>)>) -> Seq<
    (u64, Seq<u8>),
> {
    seq![(ROLE_PARAM, role.spec_value())] + params
}

proof fn lemma_setup_params_round_trip(role: Role, params: Seq<(u64, Seq<u8>)>, rest: Seq<u8>)
    requires
        spec_params_fit(spec_setup_params(role, params)),
        spec_params_distinct(params),
        !spec_params_has(params, ROLE_PARAM),
    ensures
        spec_decode_params(spec_encode_params(spec_setup_params(role, params)) + rest) == Ok::<
            (Seq<(u64, Seq<u8>)>, Seq<u8>),
            DecodeError,
        >((spec_setup_params(role, params), rest)),
        spec_setup_role(spec_setup_params(role, params)) == Ok::<Role, DecodeError>(role),
        spec_params_without(spec_setup_params(role, params), ROLE_PARAM) == params,
{
    lemma_params_front(ROLE_PARAM, role.spec_value(), params);
    lemma_params_round_trip(spec_setup_params(role, params), rest);
    role.lemma_value_round_trip();
}

fn take_role(params: &mut Params) -> (r: Result<Role, DecodeError>)
    requires
        old(params).wf(),
    ensures
        final(params).wf(),
        final(params)@ == spec_params_without(old(params)@, ROLE_PARAM),
        r == spec_setup_role(old(params)@),
{
    match params.remove(ROLE_PARAM) {
        None => Err(DecodeError::MissingField),
        Some(value) => Role::from_value(value.as_slice()),
    }
}

/// Sent by the client to open a session.
#[derive(Clone, Debug, PartialEq, Eq)]
pub struct ClientSetup {
    /// The versions that the client speaks, in order of preference.
    pub versions: Vec<u64>,
    /// The role that the client plays.
    pub role: Role,
    /// The parameters that mean nothing to this library.
    pub params: Params,
}

/// What a `ClientSetup` holds, as plain values.
pub struct ClientSetupView {
    pub versions: Seq<u64>,
    pub role: Role,
    pub params: Seq<(u64, Seq<u8>)>,
}

impl View for ClientSetup {
    type V = ClientSetupView;

    open spec fn view(&self) -> ClientSetupView {
        ClientSetupView { versions: self.versions@, role: self.role, params: self.params@ }
    }
}

impl ClientSetupView {
    /// Every number and every length of the message can be encoded.
    pub open spec fn spec_fits(self) -> bool {
        &&& spec_numbers_fit(self.versions)
        &&& spec_params_fit(spec_setup_params(self.role, self.params))
    }

    /// The message decodes to itself: it fits, no parameter occurs twice,
    /// and the role parameter is not among the others.
    pub open spec fn wf(self) -> bool {
        &&& self.spec_fits()
        &&& spec_params_distinct(self.params)
        &&& !spec_params_has(self.params, ROLE_PARAM)
    }

    /// The body of the message, meaningful where it fits.
    pub open spec fn spec_encode(self) -> Seq<u8> {
        spec_encode_numbers(self.versions) + spec_encode_params(
            spec_setup_params(self.role, self.params),
        )
    }

    /// Reads one `ClientSetup` body from the front of `s`: the versions,
    /// then the parameters, of which the role parameter becomes the role.
    pub open spec fn spec_decode(s: Seq<u8>) -> Result<(ClientSetupView, Seq<u8>), DecodeError> {
        match spec_decode_numbers(s) {
            Err(e) => Err(e),
            Ok((versions, s1)) => match spec_decode_params(s1) {
                Err(e) => Err(e),
                Ok((params, rest)) => match spec_setup_role(params) {
                    Err(e) => Err(e),
                    Ok(role) => Ok(
                        (
                            ClientSetupView {
                                versions,
                                role,
                                params: spec_params_without(params, ROLE_PARAM),
                            },
                            rest,
                        ),
                    ),
                },
            },
        }
    }

    /// Decoding the encoding of a well-formed `ClientSetup` gives it back,
    /// field for field, and leaves what followed.
    pub proof fn lemma_round_trip(self, rest: Seq<u8>)
        requires
            self.wf(),
        ensures
            Self::spec_decode(self.spec_encode() + rest) == Ok::<
                (ClientSetupView, Seq<u8>),
                DecodeError,
            >((self, rest)),
    {
        let wire = spec_encode_params(spec_setup_params(self.role, self.params));
        lemma_concat_assoc(spec_encode_numbers(self.versions), wire, rest);
        lemma_numbers_round_trip(self.versions, wire + rest);
        lemma_setup_params_round_trip(self.role, self.params, rest);
    }
}

impl ClientSetup {
    /// Whether every number and every length of the message can be encoded.
    pub fn fits(&self) -> (b: bool)
        ensures
            b == self@.spec_fits(),
    {
        let value = self.role.value();
        numbers_fit(self.versions.as_slice()) && self.params.fits_behind(ROLE_PARAM, value.as_slice())
    }

    /// Appends the body of the message to `out`. A message that does not
    /// fit is refused with `BoundsExceeded` and leaves `out` as it was.
    pub fn encode(&self, out: &mut Vec<u8>) -> (r: Result<(), EncodeError>)
        ensures
            self@.spec_fits() ==> r is Ok && final(out)@ == old(out)@ + self@.spec_encode(),
            !self@.spec_fits() ==> r == Err::<(), EncodeError>(EncodeError::BoundsExceeded)
                && final(out)@ == old(out)@,
    {
        if !self.fits() {
            return Err(EncodeError::BoundsExceeded);
        }
        let value = self.role.value();
        let _ = encode_numbers(self.versions.as_slice(), out);
        self.params.encode_behind(ROLE_PARAM, value.as_slice(), out);
        assert(out@ =~= old(out)@ + self@.spec_encode());
        Ok(())
    }

    /// Reads one `ClientSetup` body at `pos`. On success the second
    /// component is the position just behind it.
    pub fn decode_at(buf: &[u8], pos: usize) -> (r: Result<(ClientSetup, usize), DecodeError>)
        requires
            pos <= buf@.len(),
        ensures
            match r {
                Ok((m, next)) => pos < next <= buf@.len() && ClientSetupView::spec_decode(
                    buf@.skip(pos as int),
                ) == Ok::<(ClientSetupView, Seq<u8>), DecodeError>((m@, buf@.skip(next as int))),
                Err(e) => ClientSetupView::spec_decode(buf@.skip(pos as int)) == Err::<
                    (ClientSetupView, Seq<u8>),
                    DecodeError,
                >(e),
            },
    {
        let (versions, p1) = decode_numbers_at(buf, pos)?;
        let (mut params, next) = Params::decode_at(buf, p1)?;
        let role = take_role(&mut params)?;
        Ok((ClientSetup { versions, role, params }, next))
    }

    /// Reads one `ClientSetup` body from the front of `buf`: the message
    /// and the number of bytes it took.
    pub fn decode(buf: &[u8]) -> (r: Result<(ClientSetup, usize), DecodeError>)
        ensures
            match r {
                Ok((m, n)) => 0 < n <= buf@.len() && ClientSetupView::spec_decode(buf@) == Ok::<
                    (ClientSetupView, Seq<u8>),
                    DecodeError,
                >((m@, buf@.skip(n as int))),
                Err(e) => ClientSetupView::spec_decode(buf@) == Err::<
                    (ClientSetupView, Seq<u8>),
                    DecodeError,
                >(e),
            },
    {
        assert(buf@.skip(0) =~= buf@);
        Self::decode_at(buf, 0)
    }
}

/// Sent by the server in answer to a `ClientSetup`.
#[derive(Clone, Debug, PartialEq, Eq)]
pub struct ServerSetup {
    /// The version that the server selected.
    pub version: u64,
    /// The role that the server plays.
    pub role: Role,
    /// The parameters that mean nothing to this library.
    pub params: Params,
}

/// What a `ServerSetup` holds, as plain values.
pub struct ServerSetupView {
    pub version: u64,
    pub role: Role,
    pub params: Seq<(u64, Seq<u8>)>,
}

impl View for ServerSetup {
    type V = ServerSetupView;

    open spec fn view(&self) -> ServerSetupView {
        ServerSetupView { version: self.version, role: self.role, params: self.params@ }
    }
}

impl ServerSetupView {
    /// Every number and every length of the message can be encoded.
    pub open spec fn spec_fits(self) -> bool {
        &&& self.version <= VARINT_MAX
        &&& spec_params_fit(spec_setup_params(self.role, self.params))
    }

    /// The message decodes to itself: it fits, no parameter occurs twice,
    /// and the role parameter is not among the others.
    pub open spec fn wf(self) -> bool {
        &&& self.spec_fits()
        &&& spec_params_distinct(self.params)
        &&& !spec_params_has(self.params, ROLE_PARAM)
    }

    /// The body of the message, meaningful where it fits.
    pub open spec fn spec_encode(self) -> Seq<u8> {
        spec_encode_varint(self.version) + spec_encode_params(
            spec_setup_params(self.role, self.params),
        )
    }

    /// Reads one `ServerSetup` body from the front of `s`: the version,
    /// then the parameters, of which the role parameter becomes the role.
    pub open spec fn spec_decode(s: Seq<u8>) -> Result<(ServerSetupView, Seq<u8>), DecodeError> {
        match spec_decode_varint(s) {
            Err(e) => Err(e),
            Ok((version, s1)) => match spec_decode_params(s1) {
                Err(e) => Err(e),
                Ok((params, rest)) => match spec_setup_role(params) {
                    Err(e) => Err(e),
                    Ok(role) => Ok(
                        (
                            ServerSetupView {
                                version,
                                role,
                                params: spec_params_without(params, ROLE_PARAM),
                            },
                            rest,
                        ),
                    ),
                },
            },
        }
    }

    /// Decoding the encoding of a well-formed `ServerSetup` gives it back,
    /// field for field, and leaves what followed.
    pub proof fn lemma_round_trip(self, rest: Seq<u8>)
        requires
            self.wf(),
        ensures
            Self::spec_decode(self.spec_encode() + rest) == Ok::<
                (ServerSetupView, Seq<u8>),
                DecodeError,
            >((self, rest)),
    {
        let wire = spec_encode_params(spec_setup_params(self.role, self.params));
        lemma_concat_assoc(spec_encode_varint(self.version), wire, rest);
        lemma_varint_round_trip(self.version, wire + rest);
        lemma_setup_params_round_trip(self.role, self.params, rest);
    }
}

impl ServerSetup {
    /// Whether every number and every length of the message can be encoded.
    pub fn fits(&self) -> (b: bool)
        ensures
            b == self@.spec_fits(),
    {
        let value = self.role.value();
        self.version <= VARINT_MAX && self.params.fits_behind(ROLE_PARAM, value.as_slice())
    }

    /// Appends the body of the message to `out`. A message that does not
    /// fit is refused with `BoundsExceeded` and leaves `out` as it was.
    pub fn encode(&self, out: &mut Vec<u8>) -> (r: Result<(), EncodeError>)
        ensures
            self@.spec_fits() ==> r is Ok && final(out)@ == old(out)@ + self@.spec_encode(),
            !self@.spec_fits() ==> r == Err::<(), EncodeError>(EncodeError::BoundsExceeded)
                && final(out)@ == old(out)@,
    {
        if !self.fits() {
            return Err(EncodeError::BoundsExceeded);
        }
        let value = self.role.value();
        let _ = encode_varint(self.version, out);
        self.params.encode_behind(ROLE_PARAM, value.as_slice(), out);
        assert(out@ =~= old(out)@ + self@.spec_encode());
        Ok(())
    }

    /// Reads one `ServerSetup` body at `pos`. On success the second
    /// component is the position just behind it.
    pub fn decode_at(buf: &[u8], pos: usize) -> (r: Result<(ServerSetup, usize), DecodeError>)
        requires
            pos <= buf@.len(),
        ensures
            match r {
                Ok((m, next)) => pos < next <= buf@.len() && ServerSetupView::spec_decode(
                    buf@.skip(pos as int),
                ) == Ok::<(ServerSetupView, Seq<u8>), DecodeError>((m@, buf@.skip(next as int))),
                Err(e) => ServerSetupView::spec_decode(buf@.skip(pos as int)) == Err::<
                    (ServerSetupView, Seq<u8>),
                    DecodeError,
                >(e),
            },
    {
        let (version, p1) = decode_varint_at(buf, pos)?;
        let (mut params, next) = Params::decode_at(buf, p1)?;
        let role = take_role(&mut params)?;
        Ok((ServerSetup { version, role, params }, next))
    }

    /// Reads one `ServerSetup` body from the front of `buf`: the message
    /// and the number of bytes it took.
    pub fn decode(buf: &[u8]) -> (r: Result<(ServerSetup, usize), DecodeError>)
        ensures
            match r {
                Ok((m, n)) => 0 < n <= buf@.len() && ServerSetupView::spec_decode(buf@) == Ok::<
                    (ServerSetupView, Seq<u8>),
                    DecodeError,
                >((m@, buf@.skip(n as int))),
                Err(e) => ServerSetupView::spec_decode(buf@) == Err::<
                    (ServerSetupView, Seq<u8>),
                    DecodeError,
                >(e),
            },
    {
        assert(buf@.skip(0) =~= buf@);
        Self::decode_at(buf, 0)
    }
}

} // verus!
