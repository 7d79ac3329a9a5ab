//! Control messages: typed bodies and their wire form. On the control
//! stream each message is a discriminant, as a variable-length integer,
//! followed by the body of the kind that the discriminant names.
use vstd::prelude::*;

use crate::coding::bytes::lemma_concat_assoc;
use crate::coding::varint::decode_varint_at;
use crate::coding::varint::encode_varint;
use crate::coding::varint::lemma_varint_round_trip;
use crate::coding::varint::spec_decode_varint;
use crate::coding::varint::spec_encode_varint;
use crate::error::DecodeError;
use crate::error::EncodeError;
use crate::message::announce::Announce;
use crate::message::announce::AnnounceView;
use crate::message::announce_error::AnnounceError;
use crate::message::announce_error::AnnounceErrorView;
use crate::message::announce_ok::AnnounceOk;
use crate::message::announce_ok::AnnounceOkView;
use crate::message::go_away::GoAway;
use crate::message::go_away::GoAwayView;
use crate::message::subscribe::Subscribe;
use crate::message::subscribe::SubscribeView;
use crate::message::subscribe_done::SubscribeDone;
use crate::message::subscribe_done::SubscribeDoneView;
use crate::message::subscribe_error::SubscribeError;
use crate::message::subscribe_error::SubscribeErrorView;
use crate::message::subscribe_ok::SubscribeOk;
use crate::message::unannounce::Unannounce;
use crate::message::unannounce::UnannounceView;
use crate::message::unsubscribe::Unsubscribe;
use crate::setup::ClientSetup;
use crate::setup::ClientSetupView;
use crate::setup::ServerSetup;
use crate::setup::ServerSetupView;

pub mod announce;
pub mod announce_error;
pub mod announce_ok;
pub mod go_away;
pub mod position;
pub mod subscribe;
pub mod subscribe_done;
pub mod subscribe_error;
pub mod subscribe_ok;
pub mod unannounce;
pub mod unsubscribe;

verus! {

/// A control message of any kind.
#[derive(Clone, Debug, PartialEq, Eq)]
pub enum Message {
    /// Opens a session.
    ClientSetup(ClientSetup),
    /// Answers a `ClientSetup`.
    ServerSetup(ServerSetup),
    /// Asks for a track.
    Subscribe(Subscribe),
    /// Accepts a subscription.
    SubscribeOk(SubscribeOk),
    /// Refuses a subscription.
    SubscribeError(SubscribeError),
    /// Advertises a namespace.
    Announce(Announce),
    /// Accepts an announcement.
    AnnounceOk(AnnounceOk),
    /// Refuses an announcement.
    AnnounceError(AnnounceError),
    /// Withdraws an announcement.
    Unannounce(Unannounce),
    /// Withdraws a subscription.
    Unsubscribe(Unsubscribe),
    /// Ends a subscription.
    SubscribeDone(SubscribeDone),
    /// Asks the peer to move to another server.
    GoAway(GoAway),
}

/// What a `Message` holds, as plain values.
pub enum MessageView {
    ClientSetup(ClientSetupView),
    ServerSetup(ServerSetupView),
    Subscribe(SubscribeView),
    SubscribeOk(SubscribeOk),
    SubscribeError(SubscribeErrorView),
    Announce(AnnounceView),
    AnnounceOk(AnnounceOkView),
    AnnounceError(AnnounceErrorView),
    Unannounce(UnannounceView),
    Unsubscribe(Unsubscribe),
    SubscribeDone(SubscribeDoneView),
    GoAway(GoAwayView),
}

impl View for Message {
    type V = MessageView;

    open spec fn view(&self) -> MessageView {
        match self {
            Message::ClientSetup(m) => MessageView::ClientSetup(m@),
            Message::ServerSetup(m) => MessageView::ServerSetup(m@),
            Message::Subscribe(m) => MessageView::Subscribe(m@),
            Message::SubscribeOk(m) => MessageView::SubscribeOk(*m),
            Message::SubscribeError(m) => MessageView::SubscribeError(m@),
            Message::Announce(m) => MessageView::Announce(m@),
            Message::AnnounceOk(m) => MessageView::AnnounceOk(m@),
            Message::AnnounceError(m) => MessageView::AnnounceError(m@),
            Message::Unannounce(m) => MessageView::Unannounce(m@),
            Message::Unsubscribe(m) => MessageView::Unsubscribe(*m),
            Message::SubscribeDone(m) => MessageView::SubscribeDone(m@),
            Message::GoAway(m) => MessageView::GoAway(m@),
        }
    }
}

impl MessageView {
    /// The discriminant that names the kind of the message on the wire.
    pub open spec fn spec_id(self) -> u64 {
        match self {
            MessageView::ClientSetup(_) => 0x40,
            MessageView::ServerSetup(_) => 0x41,
            MessageView::Subscribe(_) => 0x3,
            MessageView::SubscribeOk(_) => 0x4,
            MessageView::SubscribeError(_) => 0x5,
            MessageView::Announce(_) => 0x6,
            MessageView::AnnounceOk(_) => 0x7,
            MessageView::AnnounceError(_) => 0x8,
            MessageView::Unannounce(_) => 0x9,
            MessageView::Unsubscribe(_) => 0xa,
            MessageView::SubscribeDone(_) => 0xb,
            MessageView::GoAway(_) => 0x10,
        }
    }

    /// Whether the message can be encoded: `MissingField` for a `Subscribe`
    /// that lacks a pair that its filter requires; otherwise
    /// `BoundsExceeded` where a number or a length is above 2^62 - 1.
    pub open spec fn spec_check(self) -> Result<(), EncodeError> {
        match self {
            MessageView::ClientSetup(m) => if !m.spec_fits() {
                Err(EncodeError::BoundsExceeded)
            } else {
                Ok(())
            },
            MessageView::ServerSetup(m) => if !m.spec_fits() {
                Err(EncodeError::BoundsExceeded)
            } else {
                Ok(())
            },
            MessageView::Subscribe(m) => if !m.complete() {
                Err(EncodeError::MissingField)
            } else if !m.spec_fits() {
                Err(EncodeError::BoundsExceeded)
            } else {
                Ok(())
            },
            MessageView::SubscribeOk(m) => if !m.spec_fits() {
                Err(EncodeError::BoundsExceeded)
            } else {
                Ok(())
            },
            MessageView::SubscribeError(m) => if !m.spec_fits() {
                Err(EncodeError::BoundsExceeded)
            } else {
                Ok(())
            },
            MessageView::Announce(m) => if !m.spec_fits() {
                Err(EncodeError::BoundsExceeded)
            } else {
                Ok(())
            },
            MessageView::AnnounceOk(m) => if !m.spec_fits() {
                Err(EncodeError::BoundsExceeded)
            } else {
                Ok(())
            },
            MessageView::AnnounceError(m) => if !m.spec_fits() {
                Err(EncodeError::BoundsExceeded)
            } else {
                Ok(())
            },
            MessageView::Unannounce(m) => if !m.spec_fits() {
                Err(EncodeError::BoundsExceeded)
            } else {
                Ok(())
            },
            MessageView::Unsubscribe(m) => if !m.spec_fits() {
                Err(EncodeError::BoundsExceeded)
            } else {
                Ok(())
            },
            MessageView::SubscribeDone(m) => if !m.spec_fits() {
                Err(EncodeError::BoundsExceeded)
            } else {
                Ok(())
            },
            MessageView::GoAway(m) => if !m.spec_fits() {
                Err(EncodeError::BoundsExceeded)
            } else {
                Ok(())
            },
        }
    }

    /// The message decodes to itself: whatever its kind asks of a
    /// message that is to survive the wire unchanged.
    pub open spec fn wf(self) -> bool {
        match self {
            MessageView::ClientSetup(m) => m.wf(),
            MessageView::ServerSetup(m) => m.wf(),
            MessageView::Subscribe(m) => m.wf(),
            MessageView::SubscribeOk(m) => m.spec_fits(),
            MessageView::SubscribeError(m) => m.spec_fits(),
            MessageView::Announce(m) => m.wf(),
            MessageView::AnnounceOk(m) => m.spec_fits(),
            MessageView::AnnounceError(m) => m.spec_fits(),
            MessageView::Unannounce(m) => m.spec_fits(),
            MessageView::Unsubscribe(m) => m.spec_fits(),
            MessageView::SubscribeDone(m) => m.spec_fits(),
            MessageView::GoAway(m) => m.spec_fits(),
        }
    }

    /// The body of the message without its discriminant.
    pub open spec fn spec_body(self) -> Seq<u8> {
        match self {
            MessageView::ClientSetup(m) => m.spec_encode(),
            MessageView::ServerSetup(m) => m.spec_encode(),
            MessageView::Subscribe(m) => m.spec_encode(),
            MessageView::SubscribeOk(m) => m.spec_encode(),
            MessageView::SubscribeError(m) => m.spec_encode(),
            MessageView::Announce(m) => m.spec_encode(),
            MessageView::AnnounceOk(m) => m.spec_encode(),
            MessageView::AnnounceError(m) => m.spec_encode(),
            MessageView::Unannounce(m) => m.spec_encode(),
            MessageView::Unsubscribe(m) => m.spec_encode(),
            MessageView::SubscribeDone(m) => m.spec_encode(),
            MessageView::GoAway(m) => m.spec_encode(),
        }
    }

    /// The discriminant followed by the body.
    pub open spec fn spec_encode(self) -> Seq<u8> {
        spec_encode_varint(self.spec_id()) + self.spec_body()
    }

    /// Reads the body of the kind that `id` names from the front of `s`;
    /// an `id` that names no kind gives `InvalidMessage` with the `id`.
    pub open spec fn spec_decode_body(id: u64, s: Seq<u8>) -> Result<(MessageView, Seq<u8>), DecodeError> {
        if id == 0x40 {
            match ClientSetupView::spec_decode(s) {
                Err(e) => Err(e),
                Ok((m, rest)) => Ok((MessageView::ClientSetup(m), rest)),
            }
        } else if id == 0x41 {
            match ServerSetupView::spec_decode(s) {
                Err(e) => Err(e),
                Ok((m, rest)) => Ok((MessageView::ServerSetup(m), rest)),
            }
        } else if id == 0x3 {
            match SubscribeView::spec_decode(s) {
                Err(e) => Err(e),
                Ok((m, rest)) => Ok((MessageView::Subscribe(m), rest)),
            }
        } else if id == 0x4 {
            match SubscribeOk::spec_decode(s) {
                Err(e) => Err(e),
                Ok((m, rest)) => Ok((MessageView::SubscribeOk(m), rest)),
            }
        } else if id == 0x5 {
            match SubscribeErrorView::spec_decode(s) {
                Err(e) => Err(e),
                Ok((m, rest)) => Ok((MessageView::SubscribeError(m), rest)),
            }
        } else if id == 0x6 {
            match AnnounceView::spec_decode(s) {
                Err(e) => Err(e),
                Ok((m, rest)) => Ok((MessageView::Announce(m), rest)),
            }
        } else if id == 0x7 {
            match AnnounceOkView::spec_decode(s) {
                Err(e) => Err(e),
                Ok((m, rest)) => Ok((MessageView::AnnounceOk(m), rest)),
            }
        } else if id == 0x8 {
            match AnnounceErrorView::spec_decode(s) {
                Err(e) => Err(e),
                Ok((m, rest)) => Ok((MessageView::AnnounceError(m), rest)),
            }
        } else if id == 0x9 {
            match UnannounceView::spec_decode(s) {
                Err(e) => Err(e),
                Ok((m, rest)) => Ok((MessageView::Unannounce(m), rest)),
            }
        } else if id == 0xa {
            match Unsubscribe::spec_decode(s) {
                Err(e) => Err(e),
                Ok((m, rest)) => Ok((MessageView::Unsubscribe(m), rest)),
            }
        } else if id == 0xb {
            match SubscribeDoneView::spec_decode(s) {
                Err(e) => Err(e),
                Ok((m, rest)) => Ok((MessageView::SubscribeDone(m), rest)),
            }
        } else if id == 0x10 {
            match GoAwayView::spec_decode(s) {
                Err(e) => Err(e),
                Ok((m, rest)) => Ok((MessageView::GoAway(m), rest)),
            }
        } else {
            Err(DecodeError::InvalidMessage(id))
        }
    }

    /// Reads one message from the front of `s`: the discriminant, then the
    /// body.
    pub open spec fn spec_decode(s: Seq<u8>) -> Result<(MessageView, Seq<u8>), DecodeError> {
        match spec_decode_varint(s) {
            Err(e) => Err(e),
            Ok((id, rest)) => Self::spec_decode_body(id, rest),
        }
    }

    /// For every well-formed message of every kind, decoding its encoding
    /// gives the message back, field for field, and leaves what followed.
    pub proof fn lemma_round_trip(self, rest: Seq<u8>)
        requires
            self.wf(),
        ensures
            Self::spec_decode(self.spec_encode() + rest) == Ok::<(MessageView, Seq<u8>), DecodeError>(
                (self, rest),
            ),
    {
        lemma_concat_assoc(spec_encode_varint(self.spec_id()), self.spec_body(), rest);
        lemma_varint_round_trip(self.spec_id(), self.spec_body() + rest);
        match self {
            MessageView::ClientSetup(m) => {
                m.lemma_round_trip(rest);
            },
            MessageView::ServerSetup(m) => {
                m.lemma_round_trip(rest);
            },
            MessageView::Subscribe(m) => {
                m.lemma_round_trip(rest);
            },
            MessageView::SubscribeOk(m) => {
                m.lemma_round_trip(rest);
            },
            MessageView::SubscribeError(m) => {
                m.lemma_round_trip(rest);
            },
            MessageView::Announce(m) => {
                m.lemma_round_trip(rest);
            },
            MessageView::AnnounceOk(m) => {
                m.lemma_round_trip(rest);
            },
            MessageView::AnnounceError(m) => {
                m.lemma_round_trip(rest);
            },
            MessageView::Unannounce(m) => {
                m.lemma_round_trip(rest);
            },
            MessageView::Unsubscribe(m) => {
                m.lemma_round_trip(rest);
            },
            MessageView::SubscribeDone(m) => {
                m.lemma_round_trip(rest);
            },
            MessageView::GoAway(m) => {
                m.lemma_round_trip(rest);
            },
        }
    }
}

impl Message {
    /// The discriminant that names the kind of the message on the wire.
    pub fn id(&self) -> (r: u64)
        ensures
            r == self@.spec_id(),
    {
        match self {
            Message::ClientSetup(_) => 0x40,
            Message::ServerSetup(_) => 0x41,
            Message::Subscribe(_) => 0x3,
            Message::SubscribeOk(_) => 0x4,
            Message::SubscribeError(_) => 0x5,
            Message::Announce(_) => 0x6,
            Message::AnnounceOk(_) => 0x7,
            Message::AnnounceError(_) => 0x8,
            Message::Unannounce(_) => 0x9,
            Message::Unsubscribe(_) => 0xa,
            Message::SubscribeDone(_) => 0xb,
            Message::GoAway(_) => 0x10,
        }
    }

    /// Whether the message can be encoded, and if not, why.
    pub fn check(&self) -> (r: Result<(), EncodeError>)
        ensures
            r is Ok <==> self@.spec_check() is Ok,
            r matches Err(e) ==> self@.spec_check() == Err::<(), EncodeError>(e),
    {
        let fits = match self {
            Message::ClientSetup(m) => m.fits(),
            Message::ServerSetup(m) => m.fits(),
            Message::Subscribe(m) => {
                if !m.complete() {
                    return Err(EncodeError::MissingField);
                }
                m.fits()
            },
            Message::SubscribeOk(m) => m.fits(),
            Message::SubscribeError(m) => m.fits(),
            Message::Announce(m) => m.fits(),
            Message::AnnounceOk(m) => m.fits(),
            Message::AnnounceError(m) => m.fits(),
            Message::Unannounce(m) => m.fits(),
            Message::Unsubscribe(m) => m.fits(),
            Message::SubscribeDone(m) => m.fits(),
            Message::GoAway(m) => m.fits(),
        };
        if fits {
            Ok(())
        } else {
            Err(EncodeError::BoundsExceeded)
        }
    }

    /// Appends the discriminant and the body to `out`. A message that
    /// cannot be encoded is refused with the error of `check` and leaves
    /// `out` as it was.
    pub fn encode(&self, out: &mut Vec<u8>) -> (r: Result<(), EncodeError>)
        ensures
            self@.spec_check() is Ok ==> r is Ok && final(out)@ == old(out)@ + self@.spec_encode(),
            self@.spec_check() matches Err(e) ==> r == Err::<(), EncodeError>(e) && final(out)@
                == old(out)@,
    {
        if let Err(e) = self.check() {
            return Err(e);
        }
        let _ = encode_varint(self.id(), out);
        let ghost head = out@;
        match self {
            Message::ClientSetup(m) => {
                let _ = m.encode(out);
            },
            Message::ServerSetup(m) => {
                let _ = m.encode(out);
            },
            Message::Subscribe(m) => {
                let _ = m.encode(out);
            },
            Message::SubscribeOk(m) => {
                let _ = m.encode(out);
            },
            Message::SubscribeError(m) => {
                let _ = m.encode(out);
            },
            Message::Announce(m) => {
                let _ = m.encode(out);
            },
            Message::AnnounceOk(m) => {
                let _ = m.encode(out);
            },
            Message::AnnounceError(m) => {
                let _ = m.encode(out);
            },
            Message::Unannounce(m) => {
                let _ = m.encode(out);
            },
            Message::Unsubscribe(m) => {
                let _ = m.encode(out);
            },
            Message::SubscribeDone(m) => {
                let _ = m.encode(out);
            },
            Message::GoAway(m) => {
                let _ = m.encode(out);
            },
        }
        proof {
            assert(out@ == head + self@.spec_body());
            lemma_concat_assoc(old(out)@, spec_encode_varint(self@.spec_id()), self@.spec_body());
        }
        Ok(())
    }

    /// Reads the body of a message about a subscription, where `id` names one.
    fn decode_subscription(id: u64, buf: &[u8], at: usize) -> (r: Result<(Message, usize), DecodeError>)
        requires
            at <= buf@.len(),
            id == 0x3 || id == 0x4 || id == 0x5 || id == 0xa || id == 0xb,
        ensures
            match r {
                Ok((m, next)) => at < next <= buf@.len() && MessageView::spec_decode_body(
                    id,
                    buf@.skip(at as int),
                ) == Ok::<(MessageView, Seq<u8>), DecodeError>((m@, buf@.skip(next as int))),
                Err(e) => MessageView::spec_decode_body(id, buf@.skip(at as int)) == Err::<
                    (MessageView, Seq<u8>),
                    DecodeError,
                >(e),
            },
    {
        if id == 0x3 {
            let (m, next) = Subscribe::decode_at(buf, at)?;
            Ok((Message::Subscribe(m), next))
        } else if id == 0x4 {
            let (m, next) = SubscribeOk::decode_at(buf, at)?;
            Ok((Message::SubscribeOk(m), next))
        } else if id == 0x5 {
            let (m, next) = SubscribeError::decode_at(buf, at)?;
            Ok((Message::SubscribeError(m), next))
        } else if id == 0xa {
            let (m, next) = Unsubscribe::decode_at(buf, at)?;
            Ok((Message::Unsubscribe(m), next))
        } else {
            let (m, next) = SubscribeDone::decode_at(buf, at)?;
            Ok((Message::SubscribeDone(m), next))
        }
    }

    /// Reads the body of a message about an announcement, where `id` names one.
    fn decode_announcement(id: u64, buf: &[u8], at: usize) -> (r: Result<(Message, usize), DecodeError>)
        requires
            at <= buf@.len(),
            id == 0x6 || id == 0x7 || id == 0x8 || id == 0x9,
        ensures
            match r {
                Ok((m, next)) => at < next <= buf@.len() && MessageView::spec_decode_body(
                    id,
                    buf@.skip(at as int),
                ) == Ok::<(MessageView, Seq<u8>), DecodeError>((m@, buf@.skip(next as int))),
                Err(e) => MessageView::spec_decode_body(id, buf@.skip(at as int)) == Err::<
                    (MessageView, Seq<u8>),
                    DecodeError,
                >(e),
            },
    {
        if id == 0x6 {
            let (m, next) = Announce::decode_at(buf, at)?;
            Ok((Message::Announce(m), next))
        } else if id == 0x7 {
            let (m, next) = AnnounceOk::decode_at(buf, at)?;
            Ok((Message::AnnounceOk(m), next))
        } else if id == 0x8 {
            let (m, next) = AnnounceError::decode_at(buf, at)?;
            Ok((Message::AnnounceError(m), next))
        } else {
            let (m, next) = Unannounce::decode_at(buf, at)?;
            Ok((Message::Unannounce(m), next))
        }
    }

    /// Reads the body of a message about the session itself, where `id` names one.
    fn decode_session(id: u64, buf: &[u8], at: usize) -> (r: Result<(Message, usize), DecodeError>)
        requires
            at <= buf@.len(),
            id == 0x40 || id == 0x41 || id == 0x10,
        ensures
            match r {
                Ok((m, next)) => at < next <= buf@.len() && MessageView::spec_decode_body(
                    id,
                    buf@.skip(at as int),
                ) == Ok::<(MessageView, Seq<u8>), DecodeError>((m@, buf@.skip(next as int))),
                Err(e) => MessageView::spec_decode_body(id, buf@.skip(at as int)) == Err::<
                    (MessageView, Seq<u8>),
                    DecodeError,
                >(e),
            },
    {
        if id == 0x40 {
            let (m, next) = ClientSetup::decode_at(buf, at)?;
            Ok((Message::ClientSetup(m), next))
        } else if id == 0x41 {
            let (m, next) = ServerSetup::decode_at(buf, at)?;
            Ok((Message::ServerSetup(m), next))
        } else {
            let (m, next) = GoAway::decode_at(buf, at)?;
            Ok((Message::GoAway(m), next))
        }
    }

    /// Reads one message from the front of `buf`: the message and the
    /// number of bytes it took.
    pub fn decode(buf: &[u8]) -> (r: Result<(Message, usize), DecodeError>)
        ensures
            match r {
                Ok((m, n)) => 0 < n <= buf@.len() && MessageView::spec_decode(buf@) == Ok::<
                    (MessageView, Seq<u8>),
                    DecodeError,
                >((m@, buf@.skip(n as int))),
                Err(e) => MessageView::spec_decode(buf@) == Err::<
                    (MessageView, Seq<u8>),
                    DecodeError,
                >(e),
            },
    {
        assert(buf@.skip(0) =~= buf@);
        let (id, at) = decode_varint_at(buf, 0)?;
        if id == 0x3 || id == 0x4 || id == 0x5 || id == 0xa || id == 0xb {
            Self::decode_subscription(id, buf, at)
        } else if id == 0x6 || id == 0x7 || id == 0x8 || id == 0x9 {
            Self::decode_announcement(id, buf, at)
        } else if id == 0x40 || id == 0x41 || id == 0x10 {
            Self::decode_session(id, buf, at)
        } else {
            Err(DecodeError::InvalidMessage(id))
        }
    }
}

} // verus!
