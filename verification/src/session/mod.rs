//! The rules of one session: the handshake, the life cycle, and the two
//! tables of subscriptions. Nothing here reads or writes a stream: each
//! function takes what has come in and says what the session becomes and
//! what is to be sent or done.
use std::collections::HashMap;
use vstd::prelude::*;

use crate::coding::params::Params;
use crate::coding::varint::VARINT_MAX;
use crate::error::Closed;
use crate::message::announce::Announce;
use crate::message::announce::AnnounceView;
use crate::message::announce_error::AnnounceError;
use crate::message::announce_ok::AnnounceOk;
use crate::message::go_away::GoAway;
use crate::message::go_away::GoAwayView;
use crate::message::unannounce::Unannounce;
use crate::message::unannounce::UnannounceView;
use crate::model::directory::Directory;
use crate::message::subscribe::FilterType;
use crate::message::subscribe::Subscribe;
use crate::message::subscribe::SubscribeView;
use crate::message::subscribe_done::SubscribeDone;
use crate::message::subscribe_done::SubscribeDoneView;
use crate::message::subscribe_error::SubscribeError;
use crate::message::subscribe_error::SubscribeErrorView;
use crate::message::subscribe_ok::SubscribeOk;
use crate::message::unsubscribe::Unsubscribe;
use crate::message::Message;
use crate::message::MessageView;
use crate::model::broadcast::Subscribed;
use crate::model::broadcast::UnknownReader;
use crate::model::track::TrackReader;
use crate::setup::ClientSetup;
use crate::setup::ClientSetupView;
use crate::setup::Role;
use crate::setup::ServerSetup;
use crate::setup::ServerSetupView;
use crate::text::str_to_string;

pub mod fanout;
pub mod header;
pub mod stream;

verus! {

broadcast use vstd::std_specs::hash::group_hash_axioms;

/// Why a session ended in failure.
#[derive(Clone, Copy, Debug, PartialEq, Eq, Structural)]
pub enum SessionError {
    /// The two sides speak no common version.
    UnsupportedVersion,
    /// The handshake did not complete: the deadline passed, or the roles of
    /// the two sides allow no flow of objects.
    HandshakeFailed,
    /// The peer broke the rules of the protocol.
    ProtocolViolation,
    /// The transport failed with the given code.
    TransportError(u64),
}

impl SessionError {
    /// The number that stands for the error on the wire.
    pub open spec fn spec_code(self) -> u64 {
        match self {
            SessionError::HandshakeFailed => 1,
            SessionError::UnsupportedVersion => 2,
            SessionError::ProtocolViolation => 3,
            SessionError::TransportError(code) => code,
        }
    }

    #[verifier::when_used_as_spec(spec_code)]
    pub fn code(self) -> (c: u64)
        ensures
            c == self.spec_code(),
    {
        match self {
            SessionError::HandshakeFailed => 1,
            SessionError::UnsupportedVersion => 2,
            SessionError::ProtocolViolation => 3,
            SessionError::TransportError(code) => code,
        }
    }
}

/// Where a session stands in its life.
#[derive(Clone, Copy, Debug, PartialEq, Eq, Structural)]
pub enum SessionState {
    /// The setup messages have not been exchanged yet.
    Handshaking,
    /// Subscriptions and announcements flow.
    Running,
    /// A `GoAway` was sent or received: no new subscription is accepted,
    /// the existing ones run to their end or to the deadline.
    Draining,
    /// The end. Nothing changes any more.
    Closed,
}

/// A subscription that this side asked for.
#[derive(Clone, Copy, Debug, PartialEq, Eq, Structural)]
pub struct Outgoing {
    /// Whether the peer has accepted it.
    pub active: bool,
    /// The track cell that receives its groups.
    pub track: usize,
}

/// A subscription that this side serves.
#[derive(Clone, Copy, Debug, PartialEq, Eq, Structural)]
pub struct Incoming {
    /// The alias under which the group streams name the track.
    pub alias: u64,
    /// The track cell that is served.
    pub track: usize,
}

/// The first version of `supported`, from index `from` on, that `offered`
/// holds too.
pub open spec fn spec_select_from(offered: Seq<u64>, supported: Seq<u64>, from: int) -> Option<u64>
    decreases supported.len() - from,
{
    if from < 0 || from >= supported.len() {
        None
    } else if offered.contains(supported[from]) {
        Some(supported[from])
    } else {
        spec_select_from(offered, supported, from + 1)
    }
}

/// The version that a server with the preference list `supported` selects
/// from those that the client `offered`: the first of its own list that
/// the client offers too.
pub open spec fn spec_select_version(offered: Seq<u64>, supported: Seq<u64>) -> Option<u64> {
    spec_select_from(offered, supported, 0)
}

/// Whether objects can flow at least one way between a side that plays
/// `local` and one that plays `peer`.
pub open spec fn spec_roles_compatible(local: Role, peer: Role) -> bool {
    (local.spec_publishes() && peer.spec_subscribes()) || (local.spec_subscribes()
        && peer.spec_publishes())
}

/// A selected version is one that both sides named.
pub proof fn lemma_selected_is_common(offered: Seq<u64>, supported: Seq<u64>, from: int)
    requires
        0 <= from,
        spec_select_from(offered, supported, from) is Some,
    ensures
        offered.contains(spec_select_from(offered, supported, from)->Some_0),
        supported.contains(spec_select_from(offered, supported, from)->Some_0),
    decreases supported.len() - from,
{
    if offered.contains(supported[from]) {
        assert(supported[from] == supported[from]);
    } else {
        lemma_selected_is_common(offered, supported, from + 1);
    }
}

/// No version is selected exactly when the two sides have none in common.
pub proof fn lemma_none_selected(offered: Seq<u64>, supported: Seq<u64>, from: int)
    requires
        0 <= from,
    ensures
        spec_select_from(offered, supported, from) is None <==> forall|i: int|
            from <= i < supported.len() ==> !offered.contains(#[trigger] supported[i]),
    decreases supported.len() - from,
{
    if from < supported.len() {
        lemma_none_selected(offered, supported, from + 1);
        if offered.contains(supported[from]) {
            assert(spec_select_from(offered, supported, from) is Some);
        }
    }
}

/// Whether `list` holds `v`.
pub fn holds_version(list: &[u64], v: u64) -> (b: bool)
    ensures
        b == list@.contains(v),
{
    let mut i: usize = 0;
    while i < list.len()
        invariant
            i <= list@.len(),
            forall|j: int| 0 <= j < i ==> list@[j] != v,
        decreases list@.len() - i,
    {
        if list[i] == v {
            return true;
        }
        i += 1;
    }
    false
}

/// The version that a server with the preference list `supported` selects
/// from those that the client `offered`.
pub fn select_version(offered: &[u64], supported: &[u64]) -> (r: Option<u64>)
    ensures
        r == spec_select_version(offered@, supported@),
{
    let mut i: usize = 0;
    while i < supported.len()
        invariant
            i <= supported@.len(),
            spec_select_version(offered@, supported@) == spec_select_from(
                offered@,
                supported@,
                i as int,
            ),
        decreases supported@.len() - i,
    {
        if holds_version(offered, supported[i]) {
            return Some(supported[i]);
        }
        i += 1;
    }
    None
}

/// Whether objects can flow at least one way between the two roles.
pub fn roles_compatible(local: Role, peer: Role) -> (b: bool)
    ensures
        b == spec_roles_compatible(local, peer),
{
    (local.publishes() && peer.subscribes()) || (local.subscribes() && peer.publishes())
}

/// What a session holds, as plain values.
#[verifier::ext_equal]
pub struct SessionView {
    pub state: SessionState,
    /// Why the session is closed, where it failed.
    pub error: Option<SessionError>,
    /// The role of this side.
    pub role: Role,
    /// The role of the peer, once the handshake is through.
    pub peer: Option<Role>,
    /// The version in use, once the handshake is through.
    pub version: Option<u64>,
    /// The versions that this side offered as a client.
    pub offered: Seq<u64>,
    /// The subscriptions that this side asked for, by id.
    pub outgoing: Map<u64, Outgoing>,
    /// The subscriptions that this side serves, by id.
    pub incoming: Map<u64, Incoming>,
    /// The namespaces that this side announced, each with whether the peer
    /// has accepted it.
    pub announced: Map<Seq<char>, bool>,
    /// The id of the next subscription that this side asks for.
    pub next_id: u64,
}

/// What the session decides on a `Subscribe` from the peer.
#[derive(Debug)]
pub enum SubscribeReply {
    /// The subscription is accepted: answer `SubscribeOk` and serve the
    /// track's groups under the alias.
    Accept { id: u64, alias: u64, track: TrackReader },
    /// The broadcast does not hold the track but names a fallback: ask it,
    /// and hand the `Subscribe` in again with what it found.
    Defer { id: u64, alias: u64, handler: UnknownReader },
    /// The subscription is refused: answer `SubscribeError` with the code.
    Refuse { id: u64, alias: u64, code: u32 },
    /// The peer broke the protocol: the session is closed.
    Violation,
    /// The session is closed already: nothing is done.
    Ignored,
}

/// What `SubscribeReply` holds, as plain values.
pub enum SubscribeDecision {
    Accept { id: u64, alias: u64, track: nat },
    Defer { id: u64, alias: u64, handler: UnknownReader },
    Refuse { id: u64, alias: u64, code: u32 },
    Violation,
    Ignored,
}

/// What the session decides on an `Announce` from the peer.
#[derive(Clone, Copy, Debug, PartialEq, Eq, Structural)]
pub enum AnnounceReply {
    /// Register the namespace with the router and answer `AnnounceOk`.
    Accept,
    /// Answer `AnnounceError` with the code.
    Refuse { code: u32 },
    /// The peer broke the protocol: the session is closed.
    Violation,
    /// The session is closed already: nothing is done.
    Ignored,
}

impl SessionView {
    /// A session before the handshake.
    pub open spec fn start(role: Role, offered: Seq<u64>) -> SessionView {
        SessionView {
            state: SessionState::Handshaking,
            error: None,
            role,
            peer: None,
            version: None,
            offered,
            outgoing: Map::empty(),
            incoming: Map::empty(),
            announced: Map::empty(),
            next_id: 0,
        }
    }

    /// The session after it ended, with `error` where it failed: the tables
    /// are emptied. A closed session stays as it is.
    pub open spec fn end(self, error: Option<SessionError>) -> SessionView {
        if self.state == SessionState::Closed {
            self
        } else {
            SessionView {
                state: SessionState::Closed,
                error,
                outgoing: Map::empty(),
                incoming: Map::empty(),
                announced: Map::empty(),
                ..self
            }
        }
    }

    /// The session after it failed with `error`.
    pub open spec fn fail(self, error: SessionError) -> SessionView {
        self.end(Some(error))
    }

    /// This side may send objects to the peer.
    pub open spec fn publishes(self) -> bool {
        self.role.spec_publishes() && (self.peer matches Some(p) && p.spec_subscribes())
    }

    /// This side may receive objects from the peer.
    pub open spec fn subscribes(self) -> bool {
        self.role.spec_subscribes() && (self.peer matches Some(p) && p.spec_publishes())
    }

    /// The handshake is through and the session has not ended.
    pub open spec fn live(self) -> bool {
        self.state == SessionState::Running || self.state == SessionState::Draining
    }

    /// What a server answers to the client's setup: the selected version,
    /// or why the handshake fails. A setup outside the handshake is a
    /// violation; without a common version the answer is
    /// `UnsupportedVersion`; with roles that allow no flow it is
    /// `HandshakeFailed`.
    pub open spec fn accepts(self, setup: ClientSetupView, supported: Seq<u64>) -> Result<
        u64,
        SessionError,
    > {
        if self.state != SessionState::Handshaking {
            Err(SessionError::ProtocolViolation)
        } else {
            match spec_select_version(setup.versions, supported) {
                None => Err(SessionError::UnsupportedVersion),
                Some(v) => if spec_roles_compatible(self.role, setup.role) {
                    Ok(v)
                } else {
                    Err(SessionError::HandshakeFailed)
                },
            }
        }
    }

    /// The session after the handshake went through.
    pub open spec fn established(self, version: u64, peer: Role) -> SessionView {
        SessionView {
            state: SessionState::Running,
            peer: Some(peer),
            version: Some(version),
            ..self
        }
    }

    /// The session of a server after the client's setup came in.
    pub open spec fn on_client_setup(self, setup: ClientSetupView, supported: Seq<u64>) -> SessionView {
        match self.accepts(setup, supported) {
            Ok(v) => self.established(v, setup.role),
            Err(e) => self.fail(e),
        }
    }

    /// What a client makes of the server's setup: `Ok`, or why the
    /// handshake fails. A setup outside the handshake is a violation; a
    /// version that the client did not offer gives `UnsupportedVersion`;
    /// roles that allow no flow give `HandshakeFailed`.
    pub open spec fn confirms(self, setup: ServerSetupView) -> Result<(), SessionError> {
        if self.state != SessionState::Handshaking {
            Err(SessionError::ProtocolViolation)
        } else if !self.offered.contains(setup.version) {
            Err(SessionError::UnsupportedVersion)
        } else if !spec_roles_compatible(self.role, setup.role) {
            Err(SessionError::HandshakeFailed)
        } else {
            Ok(())
        }
    }

    /// The session of a client after the server's setup came in.
    pub open spec fn on_server_setup(self, setup: ServerSetupView) -> SessionView {
        match self.confirms(setup) {
            Ok(_) => self.established(setup.version, setup.role),
            Err(e) => self.fail(e),
        }
    }

    /// The session after a deadline passed: a handshake that is not
    /// through has failed, a draining session ends cleanly, and nothing
    /// else changes.
    pub open spec fn on_deadline(self) -> SessionView {
        match self.state {
            SessionState::Handshaking => self.fail(SessionError::HandshakeFailed),
            SessionState::Draining => self.end(None),
            _ => self,
        }
    }

    /// The session after a `GoAway` was sent or received: a running
    /// session drains; during the handshake it is a violation.
    pub open spec fn on_go_away(self) -> SessionView {
        match self.state {
            SessionState::Running => SessionView { state: SessionState::Draining, ..self },
            SessionState::Handshaking => self.fail(SessionError::ProtocolViolation),
            _ => self,
        }
    }

    /// A draining session without subscriptions has nothing left to do.
    pub open spec fn drained(self) -> bool {
        self.state == SessionState::Draining && self.outgoing.dom() =~= Set::empty()
            && self.incoming.dom() =~= Set::empty()
    }

    /// Whether this side may ask for a subscription now.
    pub open spec fn may_subscribe(self) -> bool {
        self.state == SessionState::Running && self.subscribes() && self.next_id <= VARINT_MAX
    }

    /// The session after this side asked for a subscription whose groups
    /// go to the track cell `track`.
    pub open spec fn subscribe(self, track: usize) -> SessionView {
        if self.may_subscribe() {
            SessionView {
                outgoing: self.outgoing.insert(self.next_id, Outgoing { active: false, track }),
                next_id: (self.next_id + 1) as u64,
                ..self
            }
        } else {
            self
        }
    }

    /// The `Subscribe` that asks for the track on the wire.
    pub open spec fn subscribe_message(self, namespace: Seq<char>, name: Seq<char>) -> SubscribeView {
        SubscribeView {
            id: self.next_id,
            track_alias: self.next_id,
            track_namespace: namespace,
            track_name: name,
            filter_type: FilterType::LatestGroup,
            start: None,
            end: None,
            params: Seq::empty(),
        }
    }

    /// Whether an answer to the subscription `id` is in order: the session
    /// is live, this side asked for `id`, and, for an acceptance, it has
    /// not been accepted before.
    pub open spec fn expects(self, id: u64, acceptance: bool) -> bool {
        self.live() && self.outgoing.contains_key(id) && (acceptance ==> !self.outgoing[id].active)
    }

    /// The session after the peer accepted the subscription `id`.
    pub open spec fn on_subscribe_ok(self, id: u64) -> SessionView {
        if self.expects(id, true) {
            SessionView {
                outgoing: self.outgoing.insert(
                    id,
                    Outgoing { active: true, track: self.outgoing[id].track },
                ),
                ..self
            }
        } else {
            self.fail(SessionError::ProtocolViolation)
        }
    }

    /// The session after the peer refused or ended the subscription `id`.
    pub open spec fn on_subscribe_end(self, id: u64) -> SessionView {
        if self.expects(id, false) {
            SessionView { outgoing: self.outgoing.remove(id), ..self }
        } else {
            self.fail(SessionError::ProtocolViolation)
        }
    }

    /// What the session decides on a `Subscribe` from the peer, given what
    /// looking the track up `found`.
    pub open spec fn decides(
        self,
        msg: SubscribeView,
        found: Result<Result<nat, UnknownReader>, Closed>,
    ) -> SubscribeDecision {
        if self.state == SessionState::Closed {
            SubscribeDecision::Ignored
        } else if self.state == SessionState::Handshaking || !self.publishes() || !msg.complete()
            || self.incoming.contains_key(msg.id) {
            SubscribeDecision::Violation
        } else if self.state == SessionState::Draining {
            SubscribeDecision::Refuse {
                id: msg.id,
                alias: msg.track_alias,
                code: Closed::Cancel.spec_code(),
            }
        } else {
            match found {
                Ok(Ok(track)) => SubscribeDecision::Accept {
                    id: msg.id,
                    alias: msg.track_alias,
                    track,
                },
                Ok(Err(handler)) => SubscribeDecision::Defer {
                    id: msg.id,
                    alias: msg.track_alias,
                    handler,
                },
                Err(_) => SubscribeDecision::Refuse {
                    id: msg.id,
                    alias: msg.track_alias,
                    code: Closed::NotFound.spec_code(),
                },
            }
        }
    }

    /// The session after the decision on a `Subscribe`.
    pub open spec fn after(self, decision: SubscribeDecision) -> SessionView {
        match decision {
            SubscribeDecision::Accept { id, alias, track } => SessionView {
                incoming: self.incoming.insert(id, Incoming { alias, track: track as usize }),
                ..self
            },
            SubscribeDecision::Violation => self.fail(SessionError::ProtocolViolation),
            _ => self,
        }
    }

    /// The session after the subscription `id` that this side serves came
    /// to an end, by the peer's `Unsubscribe` or by the end of the track.
    pub open spec fn end_incoming(self, id: u64) -> SessionView {
        SessionView { incoming: self.incoming.remove(id), ..self }
    }

    /// What the session decides on an `Announce` from the peer.
    pub open spec fn decides_announce(self) -> AnnounceReply {
        match self.state {
            SessionState::Closed => AnnounceReply::Ignored,
            SessionState::Handshaking => AnnounceReply::Violation,
            SessionState::Draining => if self.subscribes() {
                AnnounceReply::Refuse { code: Closed::Cancel.spec_code() }
            } else {
                AnnounceReply::Violation
            },
            SessionState::Running => if self.subscribes() {
                AnnounceReply::Accept
            } else {
                AnnounceReply::Violation
            },
        }
    }

    /// Whether this side may announce `namespace` now: the session runs,
    /// this side publishes to the peer, and the namespace is not announced
    /// yet. `Duplicate` says that it is; `Cancel` that the session does not
    /// run or this side does not publish.
    pub open spec fn may_announce(self, namespace: Seq<char>) -> Result<(), Closed> {
        if self.state != SessionState::Running || !self.publishes() {
            Err(Closed::Cancel)
        } else if self.announced.contains_key(namespace) {
            Err(Closed::Duplicate)
        } else {
            Ok(())
        }
    }

    /// The session after this side announced `namespace`.
    pub open spec fn announce(self, namespace: Seq<char>) -> SessionView {
        if self.may_announce(namespace) is Ok {
            SessionView { announced: self.announced.insert(namespace, false), ..self }
        } else {
            self
        }
    }

    /// Whether an answer to the announcement of `namespace` is in order:
    /// the session is live, this side announced the namespace, and, for an
    /// acceptance, it has not been accepted before.
    pub open spec fn awaits(self, namespace: Seq<char>, acceptance: bool) -> bool {
        self.live() && self.announced.contains_key(namespace) && (acceptance
            ==> !self.announced[namespace])
    }

    /// The session after the peer accepted the announcement of
    /// `namespace`.
    pub open spec fn on_announce_ok(self, namespace: Seq<char>) -> SessionView {
        if self.awaits(namespace, true) {
            SessionView { announced: self.announced.insert(namespace, true), ..self }
        } else {
            self.fail(SessionError::ProtocolViolation)
        }
    }

    /// The session after the peer refused the announcement of
    /// `namespace`.
    pub open spec fn on_announce_error(self, namespace: Seq<char>) -> SessionView {
        if self.awaits(namespace, false) {
            SessionView { announced: self.announced.remove(namespace), ..self }
        } else {
            self.fail(SessionError::ProtocolViolation)
        }
    }

    /// The session after this side withdrew the announcement of
    /// `namespace`.
    pub open spec fn unannounce(self, namespace: Seq<char>) -> SessionView {
        SessionView { announced: self.announced.remove(namespace), ..self }
    }

    /// The track cell that the groups of a stream with the alias `alias`
    /// go to: that of the accepted subscription of that id; `NotFound`
    /// where there is none.
    pub open spec fn route(self, alias: u64) -> Result<usize, Closed> {
        if self.outgoing.contains_key(alias) && self.outgoing[alias].active {
            Ok(self.outgoing[alias].track)
        } else {
            Err(Closed::NotFound)
        }
    }
}

impl SubscribeReply {
    /// The decision as plain values.
    pub open spec fn view(&self) -> SubscribeDecision {
        match self {
            SubscribeReply::Accept { id, alias, track } => SubscribeDecision::Accept {
                id: *id,
                alias: *alias,
                track: track.cell(),
            },
            SubscribeReply::Defer { id, alias, handler } => SubscribeDecision::Defer {
                id: *id,
                alias: *alias,
                handler: *handler,
            },
            SubscribeReply::Refuse { id, alias, code } => SubscribeDecision::Refuse {
                id: *id,
                alias: *alias,
                code: *code,
            },
            SubscribeReply::Violation => SubscribeDecision::Violation,
            SubscribeReply::Ignored => SubscribeDecision::Ignored,
        }
    }

    /// The control message that answers the `Subscribe`: `SubscribeOk` for
    /// an acceptance, `SubscribeError` with the code for a refusal, none
    /// otherwise.
    pub fn message(&self) -> (r: Option<Message>)
        ensures
            match self.view() {
                SubscribeDecision::Accept { id, alias, track } => r matches Some(m) && m@
                    == MessageView::SubscribeOk(SubscribeOk { id, expires: 0, latest: None }),
                SubscribeDecision::Refuse { id, alias, code } => r matches Some(m) && m@
                    == MessageView::SubscribeError(
                    SubscribeErrorView { id, code, reason: Seq::empty(), track_alias: alias },
                ),
                _ => r is None,
            },
    {
        match self {
            SubscribeReply::Accept { id, alias, track } => Some(
                Message::SubscribeOk(SubscribeOk { id: *id, expires: 0, latest: None }),
            ),
            SubscribeReply::Refuse { id, alias, code } => Some(
                Message::SubscribeError(
                    SubscribeError {
                        id: *id,
                        code: *code,
                        reason: String::new(),
                        track_alias: *alias,
                    },
                ),
            ),
            _ => None,
        }
    }
}

/// The control message that tells the peer that the subscription `id`,
/// served under `alias`, has ended with `closure`: `SubscribeDone` after a
/// clean end, `SubscribeError` with the closure's code after a failure.
pub open spec fn spec_closure_message(id: u64, alias: u64, closure: Closed) -> MessageView {
    if closure == Closed::Done {
        MessageView::SubscribeDone(
            SubscribeDoneView { id, code: 0, reason: Seq::empty(), last: None },
        )
    } else {
        MessageView::SubscribeError(
            SubscribeErrorView {
                id,
                code: closure.spec_code(),
                reason: Seq::empty(),
                track_alias: alias,
            },
        )
    }
}

/// The control message that tells the peer that the subscription `id`,
/// served under `alias`, has ended with `closure`.
pub fn closure_message(id: u64, alias: u64, closure: Closed) -> (m: Message)
    ensures
        m@ == spec_closure_message(id, alias, closure),
{
    match closure {
        Closed::Done => Message::SubscribeDone(
            SubscribeDone { id, code: 0, reason: String::new(), last: None },
        ),
        _ => Message::SubscribeError(
            SubscribeError { id, code: closure.code(), reason: String::new(), track_alias: alias },
        ),
    }
}

/// One side of a session.
pub struct Session {
    state: SessionState,
    error: Option<SessionError>,
    role: Role,
    peer: Option<Role>,
    version: Option<u64>,
    offered: Vec<u64>,
    outgoing: HashMap<u64, Outgoing>,
    incoming: HashMap<u64, Incoming>,
    announced: Directory<bool>,
    next_id: u64,
}

impl View for Session {
    type V = SessionView;

    closed spec fn view(&self) -> SessionView {
        SessionView {
            state: self.state,
            error: self.error,
            role: self.role,
            peer: self.peer,
            version: self.version,
            offered: self.offered@,
            outgoing: self.outgoing@,
            incoming: self.incoming@,
            announced: self.announced@,
            next_id: self.next_id,
        }
    }
}

impl Session {
    /// The session of a side that plays `role` and offers no versions of
    /// its own, as a server does, before the handshake.
    pub fn new(role: Role) -> (s: Session)
        ensures
            s@ == SessionView::start(role, Seq::empty()),
    {
        Session {
            state: SessionState::Handshaking,
            error: None,
            role,
            peer: None,
            version: None,
            offered: Vec::new(),
            outgoing: HashMap::new(),
            incoming: HashMap::new(),
            announced: Directory::new(),
            next_id: 0,
        }
    }

    /// The session of a client that plays `role` and offers `versions`,
    /// before the handshake, together with the setup to send.
    pub fn client(role: Role, versions: Vec<u64>) -> (r: (Session, ClientSetup))
        ensures
            r.0@ == SessionView::start(role, versions@),
            r.1@ == (ClientSetupView { versions: versions@, role, params: Seq::empty() }),
    {
        let offered = versions.clone();
        assert(offered@ =~= versions@);
        let session = Session {
            state: SessionState::Handshaking,
            error: None,
            role,
            peer: None,
            version: None,
            offered,
            outgoing: HashMap::new(),
            incoming: HashMap::new(),
            announced: Directory::new(),
            next_id: 0,
        };
        (session, ClientSetup { versions, role, params: Params::new() })
    }

    /// Where the session stands.
    pub fn state(&self) -> (s: SessionState)
        ensures
            s == self@.state,
    {
        self.state
    }

    /// Why the session is closed, where it failed.
    pub fn error(&self) -> (e: Option<SessionError>)
        ensures
            e == self@.error,
    {
        self.error
    }

    /// The version in use, once the handshake is through.
    pub fn version(&self) -> (v: Option<u64>)
        ensures
            v == self@.version,
    {
        self.version
    }

    fn end(&mut self, error: Option<SessionError>)
        ensures
            final(self)@ == old(self)@.end(error),
    {
        if self.state != SessionState::Closed {
            self.state = SessionState::Closed;
            self.error = error;
            self.outgoing.clear();
            self.incoming.clear();
            self.announced.clear();
        }
    }

    fn publishes(&self) -> (b: bool)
        ensures
            b == self@.publishes(),
    {
        self.role.publishes() && match self.peer {
            Some(p) => p.subscribes(),
            None => false,
        }
    }

    fn subscribes(&self) -> (b: bool)
        ensures
            b == self@.subscribes(),
    {
        self.role.subscribes() && match self.peer {
            Some(p) => p.publishes(),
            None => false,
        }
    }

    fn live(&self) -> (b: bool)
        ensures
            b == self@.live(),
    {
        self.state == SessionState::Running || self.state == SessionState::Draining
    }

    /// Takes the client's setup as a server whose versions, in order of
    /// preference, are `supported`. On success the session runs and the
    /// answer is the setup to send back; on failure the session is closed
    /// with the error.
    pub fn accept(&mut self, setup: &ClientSetup, supported: &[u64]) -> (r: Result<
        ServerSetup,
        SessionError,
    >)
        ensures
            final(self)@ == old(self)@.on_client_setup(setup@, supported@),
            match r {
                Ok(s) => old(self)@.accepts(setup@, supported@) matches Ok(v) && s@
                    == (ServerSetupView { version: v, role: old(self)@.role, params: Seq::empty() }),
                Err(e) => old(self)@.accepts(setup@, supported@) == Err::<u64, SessionError>(e),
            },
    {
        if self.state != SessionState::Handshaking {
            self.end(Some(SessionError::ProtocolViolation));
            return Err(SessionError::ProtocolViolation);
        }
        let version = match select_version(setup.versions.as_slice(), supported) {
            Some(v) => v,
            None => {
                self.end(Some(SessionError::UnsupportedVersion));
                return Err(SessionError::UnsupportedVersion);
            },
        };
        if !roles_compatible(self.role, setup.role) {
            self.end(Some(SessionError::HandshakeFailed));
            return Err(SessionError::HandshakeFailed);
        }
        self.state = SessionState::Running;
        self.peer = Some(setup.role);
        self.version = Some(version);
        Ok(ServerSetup { version, role: self.role, params: Params::new() })
    }

    /// Takes the server's setup as a client. On success the session runs;
    /// on failure it is closed with the error.
    pub fn confirm(&mut self, setup: &ServerSetup) -> (r: Result<(), SessionError>)
        ensures
            final(self)@ == old(self)@.on_server_setup(setup@),
            r is Ok <==> old(self)@.confirms(setup@) is Ok,
            r matches Err(e) ==> old(self)@.confirms(setup@) == Err::<(), SessionError>(e),
    {
        let problem = if self.state != SessionState::Handshaking {
            Some(SessionError::ProtocolViolation)
        } else if !holds_version(self.offered.as_slice(), setup.version) {
            Some(SessionError::UnsupportedVersion)
        } else if !roles_compatible(self.role, setup.role) {
            Some(SessionError::HandshakeFailed)
        } else {
            None
        };
        match problem {
            Some(e) => {
                self.end(Some(e));
                Err(e)
            },
            None => {
                self.state = SessionState::Running;
                self.peer = Some(setup.role);
                self.version = Some(setup.version);
                Ok(())
            },
        }
    }

    /// A deadline has passed: a handshake that is not through has failed,
    /// a draining session ends cleanly.
    pub fn on_deadline(&mut self)
        ensures
            final(self)@ == old(self)@.on_deadline(),
    {
        match self.state {
            SessionState::Handshaking => self.end(Some(SessionError::HandshakeFailed)),
            SessionState::Draining => self.end(None),
            _ => {},
        }
    }

    /// The control stream held something that is no message: the session
    /// is closed with `ProtocolViolation`.
    pub fn on_decode_error(&mut self)
        ensures
            final(self)@ == old(self)@.fail(SessionError::ProtocolViolation),
    {
        self.end(Some(SessionError::ProtocolViolation));
    }

    /// The transport failed: the session is closed with the code.
    pub fn on_transport_error(&mut self, code: u64)
        ensures
            final(self)@ == old(self)@.fail(SessionError::TransportError(code)),
    {
        self.end(Some(SessionError::TransportError(code)));
    }

    /// A `GoAway` was sent or received: a running session drains.
    pub fn on_go_away(&mut self)
        ensures
            final(self)@ == old(self)@.on_go_away(),
    {
        match self.state {
            SessionState::Running => {
                self.state = SessionState::Draining;
            },
            SessionState::Handshaking => self.end(Some(SessionError::ProtocolViolation)),
            _ => {},
        }
    }

    /// Tells the peer to go away, to `url` or, with an empty `url`, to the
    /// same address again: a running session drains, and the answer is the
    /// `GoAway` to send. In any other state nothing changes and nothing is
    /// sent.
    pub fn go_away(&mut self, url: &str) -> (r: Option<GoAway>)
        ensures
            old(self)@.state == SessionState::Running ==> final(self)@ == old(self)@.on_go_away()
                && (r matches Some(m) && m@ == (GoAwayView { url: url@ })),
            old(self)@.state != SessionState::Running ==> final(self)@ == old(self)@ && r is None,
    {
        match self.state {
            SessionState::Running => {
                self.state = SessionState::Draining;
                Some(GoAway { url: str_to_string(url) })
            },
            _ => None,
        }
    }

    /// Whether the session is draining and has no subscription left.
    pub fn drained(&self) -> (b: bool)
        ensures
            b == self@.drained(),
    {
        let b = self.state == SessionState::Draining && self.outgoing.len() == 0
            && self.incoming.len() == 0;
        proof {
            if self.outgoing@.len() == 0 {
                assert(self.outgoing@.dom() =~= Set::empty()) by {
                    if exists|k: u64| self.outgoing@.dom().contains(k) {
                        let k = choose|k: u64| self.outgoing@.dom().contains(k);
                        vstd::set_lib::lemma_set_empty_equivalency_len(self.outgoing@.dom());
                    }
                }
            }
            if self.incoming@.len() == 0 {
                assert(self.incoming@.dom() =~= Set::empty()) by {
                    if exists|k: u64| self.incoming@.dom().contains(k) {
                        let k = choose|k: u64| self.incoming@.dom().contains(k);
                        vstd::set_lib::lemma_set_empty_equivalency_len(self.incoming@.dom());
                    }
                }
            }
        }
        b
    }

    /// Asks the peer for the track `name` of `namespace`; its groups are to
    /// go to the track cell `track`. The answer is the `Subscribe` to send,
    /// with a fresh id that is the alias too. Where the session does not
    /// run, this side does not subscribe, or the ids are used up, the
    /// answer is `Cancel` and nothing changes.
    pub fn subscribe(&mut self, namespace: &str, name: &str, track: usize) -> (r: Result<
        Subscribe,
        Closed,
    >)
        ensures
            final(self)@ == old(self)@.subscribe(track),
            match r {
                Ok(m) => old(self)@.may_subscribe() && m@ == old(self)@.subscribe_message(
                    namespace@,
                    name@,
                ),
                Err(e) => !old(self)@.may_subscribe() && e == Closed::Cancel,
            },
    {
        if !(self.state == SessionState::Running && self.subscribes() && self.next_id
            <= VARINT_MAX) {
            return Err(Closed::Cancel);
        }
        let id = self.next_id;
        let _ = self.outgoing.insert(id, Outgoing { active: false, track });
        self.next_id = id + 1;
        Ok(
            Subscribe {
                id,
                track_alias: id,
                track_namespace: str_to_string(namespace),
                track_name: str_to_string(name),
                filter_type: FilterType::LatestGroup,
                start: None,
                end: None,
                params: Params::new(),
            },
        )
    }

    /// The peer accepted the subscription `msg.id`. The answer is the track
    /// cell that its groups go to. An acceptance that is not in order (the
    /// session is not live, the id is unknown or accepted already) closes
    /// the session with `ProtocolViolation`.
    pub fn on_subscribe_ok(&mut self, msg: &SubscribeOk) -> (r: Result<usize, SessionError>)
        ensures
            final(self)@ == old(self)@.on_subscribe_ok(msg.id),
            match r {
                Ok(track) => old(self)@.expects(msg.id, true) && track == old(
                    self,
                )@.outgoing[msg.id].track,
                Err(e) => !old(self)@.expects(msg.id, true) && e == SessionError::ProtocolViolation,
            },
    {
        if self.live() {
            if let Some(o) = self.outgoing.get(&msg.id) {
                if !o.active {
                    let track = o.track;
                    let _ = self.outgoing.insert(msg.id, Outgoing { active: true, track });
                    return Ok(track);
                }
            }
        }
        self.end(Some(SessionError::ProtocolViolation));
        Err(SessionError::ProtocolViolation)
    }

    /// The peer refused the subscription `msg.id`: it leaves the table. The
    /// answer is the track cell that was to receive its groups and the
    /// closure to close that track with, the application code of the
    /// refusal. A refusal that is not in order closes the session with
    /// `ProtocolViolation`.
    pub fn on_subscribe_error(&mut self, msg: &SubscribeError) -> (r: Result<
        (usize, Closed),
        SessionError,
    >)
        ensures
            final(self)@ == old(self)@.on_subscribe_end(msg.id),
            match r {
                Ok((track, closure)) => old(self)@.expects(msg.id, false) && track == old(
                    self,
                )@.outgoing[msg.id].track && closure == Closed::App(msg.code),
                Err(e) => !old(self)@.expects(msg.id, false) && e
                    == SessionError::ProtocolViolation,
            },
    {
        match self.end_outgoing(msg.id) {
            Some(track) => Ok((track, Closed::App(msg.code))),
            None => Err(SessionError::ProtocolViolation),
        }
    }

    /// The peer ended the subscription `msg.id`: it leaves the table. The
    /// answer is the track cell that received its groups and the closure to
    /// close that track with: `Done` for the code 0, else the application
    /// code. An end that is not in order closes the session with
    /// `ProtocolViolation`.
    pub fn on_subscribe_done(&mut self, msg: &SubscribeDone) -> (r: Result<
        (usize, Closed),
        SessionError,
    >)
        ensures
            final(self)@ == old(self)@.on_subscribe_end(msg.id),
            match r {
                Ok((track, closure)) => old(self)@.expects(msg.id, false) && track == old(
                    self,
                )@.outgoing[msg.id].track && closure == (if msg.code == 0 {
                    Closed::Done
                } else {
                    Closed::App(msg.code)
                }),
                Err(e) => !old(self)@.expects(msg.id, false) && e
                    == SessionError::ProtocolViolation,
            },
    {
        match self.end_outgoing(msg.id) {
            Some(track) => Ok(
                (
                    track,
                    if msg.code == 0 {
                        Closed::Done
                    } else {
                        Closed::App(msg.code)
                    },
                ),
            ),
            None => Err(SessionError::ProtocolViolation),
        }
    }

    fn end_outgoing(&mut self, id: u64) -> (r: Option<usize>)
        ensures
            final(self)@ == old(self)@.on_subscribe_end(id),
            match r {
                Some(track) => old(self)@.expects(id, false) && track == old(self)@.outgoing[id].track,
                None => !old(self)@.expects(id, false),
            },
    {
        if self.live() {
            if let Some(o) = self.outgoing.remove(&id) {
                assert(self@ =~= old(self)@.on_subscribe_end(id));
                return Some(o.track);
            }
        }
        self.end(Some(SessionError::ProtocolViolation));
        None
    }

    /// Takes a `Subscribe` from the peer together with what looking the
    /// track up has `found`, and decides. A closed session ignores it.
    /// During the handshake, where this side does not publish to the peer,
    /// where the message lacks a pair that its filter requires, or where the
    /// id is in use, it is a violation and the session is closed. A
    /// draining session refuses with the code of `Cancel`. Otherwise a
    /// track that was found is accepted and entered in the table, a
    /// fallback is handed back to be asked, and a failed lookup is refused
    /// with the code of `NotFound`. The consumer in an acceptance is the one
    /// that was found.
    pub fn on_subscribe(&mut self, msg: &Subscribe, found: Result<Subscribed, Closed>) -> (r:
        SubscribeReply)
        ensures
            r.view() == old(self)@.decides(msg@, spec_found(found)),
            final(self)@ == old(self)@.after(r.view()),
            r matches SubscribeReply::Accept { track, .. } ==> found == Ok::<Subscribed, Closed>(
                Subscribed::Track(track),
            ),
    {
        if self.state == SessionState::Closed {
            return SubscribeReply::Ignored;
        }
        if self.state == SessionState::Handshaking || !self.publishes() || !msg.complete()
            || self.incoming.contains_key(&msg.id) {
            self.end(Some(SessionError::ProtocolViolation));
            return SubscribeReply::Violation;
        }
        if self.state == SessionState::Draining {
            return SubscribeReply::Refuse {
                id: msg.id,
                alias: msg.track_alias,
                code: Closed::Cancel.code(),
            };
        }
        match found {
            Ok(Subscribed::Track(track)) => {
                let _ = self.incoming.insert(
                    msg.id,
                    Incoming { alias: msg.track_alias, track: track.id() },
                );
                SubscribeReply::Accept { id: msg.id, alias: msg.track_alias, track }
            },
            Ok(Subscribed::Unknown(handler)) => SubscribeReply::Defer {
                id: msg.id,
                alias: msg.track_alias,
                handler,
            },
            Err(_) => SubscribeReply::Refuse {
                id: msg.id,
                alias: msg.track_alias,
                code: Closed::NotFound.code(),
            },
        }
    }

    /// The peer withdrew the subscription `msg.id`: it leaves the table.
    /// The answer is what was served, if the id was in the table.
    pub fn on_unsubscribe(&mut self, msg: &Unsubscribe) -> (r: Option<Incoming>)
        ensures
            final(self)@ == old(self)@.end_incoming(msg.id),
            match r {
                Some(i) => old(self)@.incoming.contains_key(msg.id) && i == old(
                    self,
                )@.incoming[msg.id],
                None => !old(self)@.incoming.contains_key(msg.id),
            },
    {
        let r = self.incoming.remove(&msg.id);
        assert(self@ =~= old(self)@.end_incoming(msg.id));
        r
    }

    /// The track served for the subscription `id` has ended with
    /// `closure`: the subscription leaves the table. The answer is the
    /// message that tells the peer, if the id was in the table.
    pub fn finish_incoming(&mut self, id: u64, closure: Closed) -> (r: Option<Message>)
        ensures
            final(self)@ == old(self)@.end_incoming(id),
            r is Some <==> old(self)@.incoming.contains_key(id),
            r matches Some(m) ==> m@ == spec_closure_message(
                id,
                old(self)@.incoming[id].alias,
                closure,
            ),
    {
        let removed = self.incoming.remove(&id);
        assert(self@ =~= old(self)@.end_incoming(id));
        match removed {
            Some(i) => Some(closure_message(id, i.alias, closure)),
            None => None,
        }
    }

    /// Takes an `Announce` from the peer and decides. A closed session
    /// ignores it. A running session that subscribes to the peer accepts; a
    /// draining one refuses with the code of `Cancel`. During the
    /// handshake, or where this side does not subscribe to the peer, it is
    /// a violation and the session is closed.
    pub fn on_announce(&mut self) -> (r: AnnounceReply)
        ensures
            r == old(self)@.decides_announce(),
            final(self)@ == (if r == AnnounceReply::Violation {
                old(self)@.fail(SessionError::ProtocolViolation)
            } else {
                old(self)@
            }),
    {
        let r = match self.state {
            SessionState::Closed => AnnounceReply::Ignored,
            SessionState::Handshaking => AnnounceReply::Violation,
            SessionState::Draining => if self.subscribes() {
                AnnounceReply::Refuse { code: Closed::Cancel.code() }
            } else {
                AnnounceReply::Violation
            },
            SessionState::Running => if self.subscribes() {
                AnnounceReply::Accept
            } else {
                AnnounceReply::Violation
            },
        };
        if let AnnounceReply::Violation = r {
            self.end(Some(SessionError::ProtocolViolation));
        }
        r
    }

    /// Announces `namespace` to the peer. The answer is the `Announce` to
    /// send. Where the session does not run or this side does not publish
    /// to the peer, the answer is `Cancel`; where the namespace is announced
    /// already, `Duplicate`; in both cases nothing changes.
    pub fn announce(&mut self, namespace: &str) -> (r: Result<Announce, Closed>)
        ensures
            final(self)@ == old(self)@.announce(namespace@),
            match r {
                Ok(m) => old(self)@.may_announce(namespace@) is Ok && m@ == (AnnounceView {
                    track_namespace: namespace@,
                    auth: None,
                    unknown: Seq::empty(),
                }),
                Err(e) => old(self)@.may_announce(namespace@) == Err::<(), Closed>(e),
            },
    {
        if self.state != SessionState::Running || !self.publishes() {
            return Err(Closed::Cancel);
        }
        if self.announced.get(namespace).is_some() {
            return Err(Closed::Duplicate);
        }
        let _ = self.announced.insert(str_to_string(namespace), false);
        Ok(
            Announce {
                track_namespace: str_to_string(namespace),
                auth: None,
                unknown: Params::new(),
            },
        )
    }

    /// The peer accepted the announcement of `msg.track_namespace`. An
    /// acceptance that is not in order (the session is not live, the
    /// namespace is not announced or accepted already) closes the session
    /// with `ProtocolViolation`.
    pub fn on_announce_ok(&mut self, msg: &AnnounceOk) -> (r: Result<(), SessionError>)
        ensures
            final(self)@ == old(self)@.on_announce_ok(msg@.track_namespace),
            r is Ok <==> old(self)@.awaits(msg@.track_namespace, true),
            r matches Err(e) ==> e == SessionError::ProtocolViolation,
    {
        if self.live() {
            if let Some(accepted) = self.announced.get(msg.track_namespace.as_str()) {
                if !*accepted {
                    let _ = self.announced.insert(msg.track_namespace.clone(), true);
                    return Ok(());
                }
            }
        }
        self.end(Some(SessionError::ProtocolViolation));
        Err(SessionError::ProtocolViolation)
    }

    /// The peer refused the announcement of `msg.track_namespace`: the
    /// namespace leaves the table. The answer is the closure to close the
    /// broadcast with, the application code of the refusal. A refusal that
    /// is not in order closes the session with `ProtocolViolation`.
    pub fn on_announce_error(&mut self, msg: &AnnounceError) -> (r: Result<Closed, SessionError>)
        ensures
            final(self)@ == old(self)@.on_announce_error(msg@.track_namespace),
            match r {
                Ok(closure) => old(self)@.awaits(msg@.track_namespace, false) && closure
                    == Closed::App(msg.code),
                Err(e) => !old(self)@.awaits(msg@.track_namespace, false) && e
                    == SessionError::ProtocolViolation,
            },
    {
        if self.live() {
            if self.announced.remove(msg.track_namespace.as_str()).is_some() {
                return Ok(Closed::App(msg.code));
            }
        }
        self.end(Some(SessionError::ProtocolViolation));
        Err(SessionError::ProtocolViolation)
    }

    /// Withdraws the announcement of `namespace`. The answer is the
    /// `Unannounce` to send, if the namespace was announced.
    pub fn unannounce(&mut self, namespace: &str) -> (r: Option<Unannounce>)
        ensures
            final(self)@ == old(self)@.unannounce(namespace@),
            r is Some <==> old(self)@.announced.contains_key(namespace@),
            r matches Some(m) ==> m@ == (UnannounceView { track_namespace: namespace@ }),
    {
        match self.announced.remove(namespace) {
            Some(_) => Some(Unannounce { track_namespace: str_to_string(namespace) }),
            None => {
                assert(self@ =~= old(self)@.unannounce(namespace@));
                None
            },
        }
    }

    /// The track cell that the groups of a stream with the alias `alias`
    /// go to. `NotFound` says that no accepted subscription has that alias:
    /// the stream is to be reset, and the session goes on.
    pub fn route(&self, alias: u64) -> (r: Result<usize, Closed>)
        ensures
            r == self@.route(alias),
    {
        match self.outgoing.get(&alias) {
            Some(o) => if o.active {
                Ok(o.track)
            } else {
                Err(Closed::NotFound)
            },
            None => Err(Closed::NotFound),
        }
    }
}

/// What looking a track up found, as plain values.
pub open spec fn spec_found(found: Result<Subscribed, Closed>) -> Result<
    Result<nat, UnknownReader>,
    Closed,
> {
    match found {
        Ok(Subscribed::Track(t)) => Ok(Ok(t.cell())),
        Ok(Subscribed::Unknown(u)) => Ok(Err(u)),
        Err(e) => Err(e),
    }
}

/// A closed session is the end: whatever comes in afterwards, it stays
/// closed, with the same error and with empty tables.
pub proof fn lemma_closed_is_terminal(
    s: SessionView,
    client: ClientSetupView,
    server: ServerSetupView,
    supported: Seq<u64>,
    id: u64,
    track: usize,
    decision: SubscribeDecision,
    msg: SubscribeView,
    found: Result<Result<nat, UnknownReader>, Closed>,
    error: SessionError,
)
    requires
        s.state == SessionState::Closed,
    ensures
        s.on_client_setup(client, supported) == s,
        s.on_server_setup(server) == s,
        s.on_deadline() == s,
        s.on_go_away() == s,
        s.fail(error) == s,
        s.subscribe(track) == s,
        s.on_subscribe_ok(id) == s,
        s.on_subscribe_end(id) == s,
        s.after(s.decides(msg, found)) == s,
        s.announce(msg.track_namespace) == s,
        s.on_announce_ok(msg.track_namespace) == s,
        s.on_announce_error(msg.track_namespace) == s,
{
}

/// A draining session takes no new subscription: it never accepts a
/// `Subscribe` from the peer and never lets this side ask for one.
pub proof fn lemma_draining_takes_nothing_new(
    s: SessionView,
    msg: SubscribeView,
    found: Result<Result<nat, UnknownReader>, Closed>,
    track: usize,
)
    requires
        s.state == SessionState::Draining,
    ensures
        !(s.decides(msg, found) is Accept),
        s.after(s.decides(msg, found)).incoming.dom().subset_of(s.incoming.dom()),
        s.subscribe(track) == s,
{
}

/// A `Subscribe` that lacks a pair that its filter requires closes the
/// session with `ProtocolViolation`, whatever the track lookup found.
pub proof fn lemma_incomplete_subscribe_is_violation(
    s: SessionView,
    msg: SubscribeView,
    found: Result<Result<nat, UnknownReader>, Closed>,
)
    requires
        s.state != SessionState::Closed,
        !msg.complete(),
    ensures
        s.decides(msg, found) == SubscribeDecision::Violation,
        s.after(s.decides(msg, found)).state == SessionState::Closed,
        s.after(s.decides(msg, found)).error == Some(SessionError::ProtocolViolation),
{
}

} // verus!
