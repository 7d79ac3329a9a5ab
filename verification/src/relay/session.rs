//! One connection of a relay: the session with the peer, wired to the
//! router and the hub. A peer that announces gets a broadcast of its own,
//! which is registered with the router; a peer that subscribes is served
//! from the broadcast that the router names; a track that a broadcast does
//! not hold yet is fetched from the peer that announced the broadcast.
use vstd::prelude::*;

use crate::error::Closed;
use crate::message::announce::Announce;
use crate::message::announce_error::AnnounceError;
use crate::message::announce_error::AnnounceErrorView;
use crate::message::announce_ok::AnnounceOk;
use crate::message::announce_ok::AnnounceOkView;
use crate::message::subscribe::Subscribe;
use crate::message::subscribe_error::SubscribeErrorView;
use crate::message::subscribe_ok::SubscribeOk;
use crate::message::unannounce::Unannounce;
use crate::message::Message;
use crate::message::MessageView;
use crate::model::broadcast::Broadcast;
use crate::model::broadcast::BroadcastWriter;
use crate::model::broadcast::Subscribed;
use crate::model::broadcast::UnknownReader;
use crate::model::hub::Hub;
use crate::model::hub::HubView;
use crate::model::track::Track;
use crate::model::track::TrackInfo;
use crate::model::track::TrackReader;
use crate::relay::origins::spec_announce;
use crate::relay::origins::spec_route;
use crate::relay::origins::spec_unannounce;
use crate::relay::origins::Origins;
use crate::relay::origins::RouterAnnounce;
use crate::session::AnnounceReply;
use crate::session::SessionError;
use crate::session::SessionView;
use crate::session::SessionState;
use crate::session::SubscribeDecision;
use crate::session::SubscribeReply;
use crate::setup::ClientSetup;
use crate::setup::Role;
use crate::setup::ServerSetup;
use crate::setup::ServerSetupView;
use crate::text::str_eq;

verus! {

/// What asking the router for `namespace` and the broadcast it names for
/// `track` gives: `NotFound` where the router has no such broadcast, else
/// what the broadcast answers.
pub open spec fn spec_resolve(
    routes: Map<Seq<char>, Seq<nat>>,
    hub: HubView,
    namespace: Seq<char>,
    track: Seq<char>,
) -> Result<Result<nat, UnknownReader>, Closed> {
    match spec_route(routes, namespace) {
        Err(e) => Err(e),
        Ok(cell) => hub.lookup(cell, track),
    }
}

/// Asks the router for the broadcast `namespace` and that broadcast for
/// the track `track`.
pub fn resolve(router: &Origins, hub: &Hub, namespace: &str, track: &str) -> (r: Result<
    Subscribed,
    Closed,
>)
    requires
        router.wf(),
        hub.wf(),
    ensures
        crate::session::spec_found(r) == spec_resolve(router@, hub@, namespace@, track@),
        r matches Ok(Subscribed::Track(t)) ==> t.cursor() == 0 && t.spec_info()
            == hub@.tracks[t.cell() as int].info,
{
    match router.serve(namespace) {
        Err(e) => Err(e),
        Ok(broadcast) => {
            let wanted = Track::new(namespace, track, 0).build();
            broadcast.subscribe(hub, &wanted)
        },
    }
}

/// One namespace that the peer announced: the producer of its broadcast
/// and the handle on its announcement in the router.
pub struct Announced {
    writer: BroadcastWriter,
    handle: RouterAnnounce,
}

impl Announced {
    /// The namespace.
    pub closed spec fn namespace(&self) -> Seq<char> {
        self.writer.spec_info()
    }

    /// The cell of the broadcast.
    pub closed spec fn cell(&self) -> nat {
        self.writer.cell()
    }

    /// The producer and the handle belong to one broadcast.
    pub closed spec fn wf(&self) -> bool {
        self.handle.cell() == self.writer.cell() && self.handle.spec_info()
            == self.writer.spec_info()
    }
}

/// What the relay decides on an `Announce` from the peer.
#[derive(Debug)]
pub enum AnnounceOutcome {
    /// The namespace is registered: send the message, an `AnnounceOk`.
    Accepted(Message),
    /// The namespace is refused: send the message, an `AnnounceError`.
    Refused(Message),
    /// The peer broke the protocol: the session is closed.
    Violation,
    /// The session is closed already: nothing is done.
    Ignored,
}

/// The session of one connection of a relay.
pub struct Session {
    id: u64,
    session: crate::session::Session,
    announced: Vec<Announced>,
}

/// What a relay session holds, as plain values: the connection's number,
/// the session, and per namespace that the peer announced its name and the
/// cell of its broadcast, in the order of announcing.
pub struct RelayView {
    pub id: u64,
    pub session: SessionView,
    pub announced: Seq<(Seq<char>, nat)>,
}

/// Whether `announced` holds `namespace`.
pub open spec fn spec_announced(announced: Seq<(Seq<char>, nat)>, namespace: Seq<char>) -> bool {
    exists|i: int| 0 <= i < announced.len() && (#[trigger] announced[i]).0 == namespace
}

/// `i` is the first place at which `announced` holds `namespace`.
pub open spec fn spec_is_position(
    announced: Seq<(Seq<char>, nat)>,
    namespace: Seq<char>,
    i: int,
) -> bool {
    &&& 0 <= i < announced.len()
    &&& announced[i].0 == namespace
    &&& forall|j: int| 0 <= j < i ==> (#[trigger] announced[j]).0 != namespace
}

/// The first place at which `announced` holds `namespace`, where it holds
/// it.
pub open spec fn spec_position(announced: Seq<(Seq<char>, nat)>, namespace: Seq<char>) -> int {
    choose|i: int| spec_is_position(announced, namespace, i)
}

/// The first place is the only one that is the first.
pub proof fn lemma_position(announced: Seq<(Seq<char>, nat)>, namespace: Seq<char>, i: int)
    requires
        spec_is_position(announced, namespace, i),
    ensures
        spec_announced(announced, namespace),
        spec_position(announced, namespace) == i,
{
    let j = spec_position(announced, namespace);
    if j < i {
        assert(announced[j].0 != namespace);
    } else if i < j {
        assert(announced[i].0 != namespace);
    }
}

/// What the relay decides on an `Announce` of `namespace`: what the
/// session decides, but a namespace that this peer has announced already
/// is refused with the code of `Duplicate`.
pub open spec fn spec_announce_decision(view: RelayView, namespace: Seq<char>) -> AnnounceReply {
    match view.session.decides_announce() {
        AnnounceReply::Accept => if spec_announced(view.announced, namespace) {
            AnnounceReply::Refuse { code: Closed::Duplicate.spec_code() }
        } else {
            AnnounceReply::Accept
        },
        other => other,
    }
}

/// The routes after the announcements `announced` were withdrawn, first
/// to last.
pub open spec fn spec_release_routes(
    routes: Map<Seq<char>, Seq<nat>>,
    announced: Seq<(Seq<char>, nat)>,
) -> Map<Seq<char>, Seq<nat>>
    decreases announced.len(),
{
    if announced.len() == 0 {
        routes
    } else {
        spec_release_routes(
            spec_unannounce(routes, announced[0].0, announced[0].1),
            announced.skip(1),
        )
    }
}

/// The hub after the broadcasts of `announced` were given up, first to
/// last: each that was open is closed with `Done`.
pub open spec fn spec_release_hub(hub: HubView, announced: Seq<(Seq<char>, nat)>) -> HubView
    decreases announced.len(),
{
    if announced.len() == 0 {
        hub
    } else {
        spec_release_hub(hub.close_broadcast(announced[0].1, Closed::Done), announced.skip(1))
    }
}

/// The announcements of a peer after it withdrew `namespace`: the entry
/// of the namespace is gone, the others keep their order.
pub open spec fn spec_withdrawn(announced: Seq<(Seq<char>, nat)>, namespace: Seq<char>) -> Seq<
    (Seq<char>, nat),
> {
    if spec_announced(announced, namespace) {
        announced.remove(spec_position(announced, namespace))
    } else {
        announced
    }
}

/// The routes after a peer with the announcements `announced` withdrew
/// `namespace`: the announcement of the namespace's broadcast has left.
pub open spec fn spec_withdrawn_routes(
    routes: Map<Seq<char>, Seq<nat>>,
    announced: Seq<(Seq<char>, nat)>,
    namespace: Seq<char>,
) -> Map<Seq<char>, Seq<nat>> {
    if spec_announced(announced, namespace) {
        spec_unannounce(routes, namespace, announced[spec_position(announced, namespace)].1)
    } else {
        routes
    }
}

/// The hub after a peer with the announcements `announced` withdrew
/// `namespace`: the namespace's broadcast is given up.
pub open spec fn spec_withdrawn_hub(
    hub: HubView,
    announced: Seq<(Seq<char>, nat)>,
    namespace: Seq<char>,
) -> HubView {
    if spec_announced(announced, namespace) {
        hub.close_broadcast(announced[spec_position(announced, namespace)].1, Closed::Done)
    } else {
        hub
    }
}

impl View for Session {
    type V = RelayView;

    closed spec fn view(&self) -> RelayView {
        RelayView {
            id: self.id,
            session: self.session@,
            announced: Seq::new(
                self.announced@.len(),
                |i: int| (self.announced@[i].namespace(), self.announced@[i].cell()),
            ),
        }
    }
}

impl Session {
    /// The relay plays both roles, and every producer and its handle belong
    /// to one broadcast.
    pub closed spec fn wf(&self) -> bool {
        &&& self.session@.role == Role::Both
        &&& forall|i: int| 0 <= i < self.announced@.len() ==> (#[trigger] self.announced@[i]).wf()
    }

    /// The session of the connection number `id`, before the handshake. A
    /// relay plays both roles.
    pub fn new(id: u64) -> (s: Session)
        ensures
            s.wf(),
            s@ == (RelayView {
                id,
                session: SessionView::start(Role::Both, Seq::empty()),
                announced: Seq::empty(),
            }),
    {
        let s = Session { id, session: crate::session::Session::new(Role::Both), announced: Vec::new() };
        assert(s@.announced =~= Seq::<(Seq<char>, nat)>::empty());
        s
    }

    /// The session with the peer.
    pub fn session(&self) -> (s: &crate::session::Session)
        ensures
            s@ == self@.session,
    {
        &self.session
    }

    /// Takes the client's setup, as `crate::session::Session::accept` does.
    pub fn accept(&mut self, setup: &ClientSetup, supported: &[u64]) -> (r: Result<
        ServerSetup,
        SessionError,
    >)
        requires
            old(self).wf(),
        ensures
            final(self).wf(),
            final(self)@ == (RelayView {
                session: old(self)@.session.on_client_setup(setup@, supported@),
                ..old(self)@
            }),
            match r {
                Ok(s) => old(self)@.session.accepts(setup@, supported@) matches Ok(v) && s@
                    == (ServerSetupView { version: v, role: Role::Both, params: Seq::empty() }),
                Err(e) => old(self)@.session.accepts(setup@, supported@) == Err::<
                    u64,
                    SessionError,
                >(e),
            },
    {
        let r = self.session.accept(setup, supported);
        assert(self@.announced =~= old(self)@.announced);
        r
    }

    fn position(&self, namespace: &str) -> (r: Option<usize>)
        ensures
            match r {
                Some(i) => spec_announced(self@.announced, namespace@) && i == spec_position(
                    self@.announced,
                    namespace@,
                ) && i < self@.announced.len() && self@.announced[i as int].0 == namespace@,
                None => !spec_announced(self@.announced, namespace@),
            },
    {
        let mut i: usize = 0;
        while i < self.announced.len()
            invariant
                i <= self.announced@.len(),
                forall|j: int| 0 <= j < i ==> (#[trigger] self@.announced[j]).0 != namespace@,
            decreases self.announced@.len() - i,
        {
            if str_eq(self.announced[i].writer.info().name.as_str(), namespace) {
                proof {
                    lemma_position(self@.announced, namespace@, i as int);
                }
                return Some(i);
            }
            i += 1;
        }
        None
    }

    /// Takes an `Announce` from the peer. Where the session accepts and the
    /// peer has not announced the namespace before, a fresh broadcast of
    /// that name is put into the hub, with this connection as the fallback
    /// for its tracks, and announced to the router in front of what is
    /// announced there; the answer carries the `AnnounceOk`. A namespace
    /// that this peer announced before is refused with the code of
    /// `Duplicate`, a draining session refuses with the code of `Cancel`;
    /// the answer carries the `AnnounceError`. A violation closes the
    /// session.
    pub fn on_announce(&mut self, router: &mut Origins, hub: &mut Hub, msg: &Announce) -> (r:
        AnnounceOutcome)
        requires
            old(self).wf(),
            old(router).wf(),
            old(hub).wf(),
        ensures
            final(self).wf(),
            final(router).wf(),
            final(hub).wf(),
            final(self)@.id == old(self)@.id,
            match spec_announce_decision(old(self)@, msg@.track_namespace) {
                AnnounceReply::Accept => {
                    &&& r matches AnnounceOutcome::Accepted(m)
                    &&& m@ == MessageView::AnnounceOk(
                        AnnounceOkView { track_namespace: msg@.track_namespace },
                    )
                    &&& final(hub)@ == old(hub)@.produce().set_unknown(
                        old(hub)@.broadcasts.len(),
                        UnknownReader { id: old(self)@.id },
                    )
                    &&& final(router)@ == spec_announce(
                        old(router)@,
                        msg@.track_namespace,
                        old(hub)@.broadcasts.len(),
                    )
                    &&& final(self)@.session == old(self)@.session
                    &&& final(self)@.announced == old(self)@.announced.push(
                        (msg@.track_namespace, old(hub)@.broadcasts.len()),
                    )
                },
                AnnounceReply::Refuse { code } => {
                    &&& r matches AnnounceOutcome::Refused(m)
                    &&& m@ == MessageView::AnnounceError(
                        AnnounceErrorView {
                            track_namespace: msg@.track_namespace,
                            code,
                            reason: Seq::empty(),
                        },
                    )
                    &&& final(hub)@ == old(hub)@
                    &&& final(router)@ == old(router)@
                    &&& final(self)@ == old(self)@
                },
                AnnounceReply::Violation => {
                    &&& r is Violation
                    &&& final(hub)@ == old(hub)@
                    &&& final(router)@ == old(router)@
                    &&& final(self)@.announced == old(self)@.announced
                    &&& final(self)@.session == old(self)@.session.fail(
                        SessionError::ProtocolViolation,
                    )
                },
                AnnounceReply::Ignored => {
                    &&& r is Ignored
                    &&& final(hub)@ == old(hub)@
                    &&& final(router)@ == old(router)@
                    &&& final(self)@ == old(self)@
                },
            },
    {
        let namespace = msg.track_namespace.as_str();
        let decision = self.session.on_announce();
        assert(self@.announced =~= old(self)@.announced);
        match decision {
            AnnounceReply::Accept => {
                if self.position(namespace).is_some() {
                    return AnnounceOutcome::Refused(
                        Message::AnnounceError(
                            AnnounceError {
                                track_namespace: msg.track_namespace.clone(),
                                code: Closed::Duplicate.code(),
                                reason: String::new(),
                            },
                        ),
                    );
                }
                let (writer, reader) = Broadcast::new(namespace).produce(hub);
                let _ = writer.unknown(hub, UnknownReader { id: self.id });
                let handle = router.announce(reader);
                self.announced.push(Announced { writer, handle });
                assert(self@.announced =~= old(self)@.announced.push(
                    (msg@.track_namespace, old(hub)@.broadcasts.len()),
                ));
                AnnounceOutcome::Accepted(
                    Message::AnnounceOk(AnnounceOk { track_namespace: msg.track_namespace.clone() }),
                )
            },
            AnnounceReply::Refuse { code } => AnnounceOutcome::Refused(
                Message::AnnounceError(
                    AnnounceError {
                        track_namespace: msg.track_namespace.clone(),
                        code,
                        reason: String::new(),
                    },
                ),
            ),
            AnnounceReply::Violation => AnnounceOutcome::Violation,
            AnnounceReply::Ignored => AnnounceOutcome::Ignored,
        }
    }

    /// Takes an `Unannounce` from the peer: the namespace's announcement
    /// leaves the router, so that an older announcement of the name comes
    /// forward again, and its broadcast is given up. The answer says
    /// whether the peer had announced the namespace; if not, nothing
    /// changes.
    pub fn on_unannounce(&mut self, router: &mut Origins, hub: &mut Hub, msg: &Unannounce) -> (r:
        bool)
        requires
            old(self).wf(),
            old(router).wf(),
            old(hub).wf(),
        ensures
            final(self).wf(),
            final(router).wf(),
            final(hub).wf(),
            final(self)@.id == old(self)@.id,
            final(self)@.session == old(self)@.session,
            r == spec_announced(old(self)@.announced, msg@.track_namespace),
            final(self)@.announced == spec_withdrawn(old(self)@.announced, msg@.track_namespace),
            final(router)@ == spec_withdrawn_routes(
                old(router)@,
                old(self)@.announced,
                msg@.track_namespace,
            ),
            final(hub)@ == spec_withdrawn_hub(
                old(hub)@,
                old(self)@.announced,
                msg@.track_namespace,
            ),
    {
        match self.position(msg.track_namespace.as_str()) {
            None => false,
            Some(i) => {
                let entry = self.announced.remove(i);
                assert(old(self).announced@[i as int].wf());
                assert(self@.announced =~= old(self)@.announced.remove(i as int));
                let _ = entry.handle.release(router);
                entry.writer.finish(hub);
                true
            },
        }
    }

    /// Takes a `Subscribe` from the peer: the track is looked up through
    /// the router and the hub, and the session decides on what was found,
    /// as `crate::session::Session::on_subscribe` does.
    pub fn on_subscribe(&mut self, router: &Origins, hub: &Hub, msg: &Subscribe) -> (r:
        SubscribeReply)
        requires
            old(self).wf(),
            router.wf(),
            hub.wf(),
        ensures
            final(self).wf(),
            final(self)@.id == old(self)@.id,
            final(self)@.announced == old(self)@.announced,
            r.view() == old(self)@.session.decides(
                msg@,
                spec_resolve(router@, hub@, msg@.track_namespace, msg@.track_name),
            ),
            final(self)@.session == old(self)@.session.after(r.view()),
            r matches SubscribeReply::Accept { track, .. } ==> track.cursor() == 0,
    {
        let found = resolve(router, hub, msg.track_namespace.as_str(), msg.track_name.as_str());
        let r = self.session.on_subscribe(msg, found);
        assert(self@.announced =~= old(self)@.announced);
        r
    }

    /// Fetches the track `name` of `namespace` from the peer, which must
    /// have announced the namespace: a fresh track is put into the
    /// namespace's broadcast, and the peer is asked for a subscription whose
    /// groups go to that track. The answer is the `Subscribe` to send and a
    /// consumer of the fresh track, set at its first group. `NotFound` says
    /// that the peer has not announced the namespace; then nothing changes.
    /// Where the broadcast is closed the answer is `Cancel` and nothing
    /// changes. Where the session takes no subscription the answer is
    /// `Cancel` too, and the fresh track is in the broadcast, closed with
    /// `Cancel`.
    pub fn fetch(&mut self, hub: &mut Hub, namespace: &str, name: &str, priority: u64) -> (r:
        Result<(Subscribe, TrackReader), Closed>)
        requires
            old(self).wf(),
            old(hub).wf(),
        ensures
            final(self).wf(),
            final(hub).wf(),
            final(self)@.id == old(self)@.id,
            final(self)@.announced == old(self)@.announced,
            !spec_announced(old(self)@.announced, namespace@) ==> (r matches Err(e) && e
                == Closed::NotFound) && final(hub)@ == old(hub)@ && final(self)@ == old(self)@,
            spec_announced(old(self)@.announced, namespace@) ==> spec_fetched(
                old(self)@,
                old(hub)@,
                final(self)@,
                final(hub)@,
                old(self)@.announced[spec_position(old(self)@.announced, namespace@)].1,
                TrackInfo { broadcast: namespace@, name: name@, priority },
                r,
            ),
    {
        let i = match self.position(namespace) {
            Some(i) => i,
            None => {
                return Err(Closed::NotFound);
            },
        };
        assert(self@.announced[i as int].0 == self.announced@[i as int].namespace());
        let track = match self.announced[i].writer.create(name, priority).build(hub) {
            Ok(t) => t,
            Err(e) => {
                return Err(e);
            },
        };
        match self.session.subscribe(namespace, name, track.id()) {
            Ok(msg) => {
                assert(self@.announced =~= old(self)@.announced);
                let reader = track.subscribe();
                Ok((msg, reader))
            },
            Err(e) => {
                assert(self@.announced =~= old(self)@.announced);
                let _ = hub.close_track(track.id(), Closed::Cancel);
                Err(e)
            },
        }
    }

    /// The connection is gone: every announcement of the peer leaves the
    /// router, so that older announcements of the names come forward again,
    /// and every broadcast of the peer is given up.
    pub fn close(self, router: &mut Origins, hub: &mut Hub)
        requires
            self.wf(),
            old(router).wf(),
            old(hub).wf(),
        ensures
            final(router).wf(),
            final(hub).wf(),
            final(router)@ == spec_release_routes(old(router)@, self@.announced),
            final(hub)@ == spec_release_hub(old(hub)@, self@.announced),
    {
        let ghost all = self@.announced;
        let mut announced = self.announced;
        let ghost entries = announced@;
        let mut i: usize = 0;
        assert(all.skip(0) =~= all);
        // The entries are taken from the front by index; the vector itself
        // is dropped at the end.
        while i < announced.len()
            invariant
                i <= announced@.len(),
                announced@ == entries,
                all.len() == entries.len(),
                forall|k: int|
                    0 <= k < entries.len() ==> (#[trigger] entries[k]).wf() && all[k] == (
                        entries[k].namespace(),
                        entries[k].cell(),
                    ),
                router.wf(),
                hub.wf(),
                spec_release_routes(old(router)@, all) == spec_release_routes(
                    router@,
                    all.skip(i as int),
                ),
                spec_release_hub(old(hub)@, all) == spec_release_hub(hub@, all.skip(i as int)),
            decreases announced@.len() - i,
        {
            let entry = &announced[i];
            let _ = router.unannounce(entry.handle.broadcast());
            let _ = hub.close_broadcast(entry.writer.id(), Closed::Done);
            proof {
                assert(all.skip(i as int)[0] == all[i as int]);
                assert(all.skip(i as int).skip(1) =~= all.skip(i + 1));
            }
            i += 1;
        }
    }
}

/// What the relay does on a control message from the peer.
#[derive(Debug)]
pub enum Outcome {
    /// Send the message on the control stream.
    Send(Message),
    /// Send the reply, a `SubscribeOk`, and serve the groups of the track
    /// to the peer on streams that carry the alias.
    Serve { reply: Message, id: u64, alias: u64, track: TrackReader },
    /// The broadcast does not hold the track: have the connection that the
    /// handler names fetch it, then hand the message in again.
    Ask { handler: UnknownReader },
    /// Stop serving the subscription: the peer has withdrawn it.
    Release { id: u64, track: usize },
    /// Nothing is to be done.
    Nothing,
    /// The session has failed: close the connection with the error.
    Fail(SessionError),
}

/// What an `Outcome` holds, as plain values.
pub enum OutcomeView {
    Send(MessageView),
    Serve { reply: MessageView, id: u64, alias: u64, track: nat },
    Ask { handler: UnknownReader },
    Release { id: u64, track: usize },
    Nothing,
    Fail(SessionError),
}

impl View for Outcome {
    type V = OutcomeView;

    open spec fn view(&self) -> OutcomeView {
        match self {
            Outcome::Send(m) => OutcomeView::Send(m@),
            Outcome::Serve { reply, id, alias, track } => OutcomeView::Serve {
                reply: reply@,
                id: *id,
                alias: *alias,
                track: track.cell(),
            },
            Outcome::Ask { handler } => OutcomeView::Ask { handler: *handler },
            Outcome::Release { id, track } => OutcomeView::Release { id: *id, track: *track },
            Outcome::Nothing => OutcomeView::Nothing,
            Outcome::Fail(e) => OutcomeView::Fail(*e),
        }
    }
}

/// A relay connection, the routes and the hub after a control message,
/// and what is to be done.
pub struct Ran {
    pub relay: RelayView,
    pub routes: Map<Seq<char>, Seq<nat>>,
    pub hub: HubView,
    pub outcome: OutcomeView,
}

/// What the decision on a `Subscribe` asks the relay to do.
pub open spec fn spec_subscribe_outcome(decision: SubscribeDecision) -> OutcomeView {
    match decision {
        SubscribeDecision::Accept { id, alias, track } => OutcomeView::Serve {
            reply: MessageView::SubscribeOk(SubscribeOk { id, expires: 0, latest: None }),
            id,
            alias,
            track,
        },
        SubscribeDecision::Defer { id, alias, handler } => OutcomeView::Ask { handler },
        SubscribeDecision::Refuse { id, alias, code } => OutcomeView::Send(
            MessageView::SubscribeError(
                SubscribeErrorView { id, code, reason: Seq::empty(), track_alias: alias },
            ),
        ),
        SubscribeDecision::Violation => OutcomeView::Fail(SessionError::ProtocolViolation),
        SubscribeDecision::Ignored => OutcomeView::Nothing,
    }
}

/// The closure that the end of an upstream subscription gives its track:
/// `Done` for the code 0 of a `SubscribeDone`, else the application code.
pub open spec fn spec_end_closure(code: u32, done: bool) -> Closed {
    if done && code == 0 {
        Closed::Done
    } else {
        Closed::App(code)
    }
}

/// What a relay connection does on the control message `msg`, and what the
/// connection, the routes and the hub are afterwards.
///
/// A closed session ignores everything. A `ClientSetup` is answered as the
/// handshake decides. A `Subscribe` is looked up through the router and the
/// hub and decided by the session. The answers to this side's own
/// subscriptions move them on; one that ends a subscription closes the
/// track that it fed. An `Unsubscribe` releases what was served. An
/// `Announce` registers a broadcast, an `Unannounce` gives it up. A `GoAway`
/// lets the session drain. A `ServerSetup` or an answer to an announcement,
/// which a relay never awaits, is a violation, as is everything that the
/// session takes for one: then the session is closed.
pub open spec fn spec_run(
    relay: RelayView,
    routes: Map<Seq<char>, Seq<nat>>,
    hub: HubView,
    supported: Seq<u64>,
    msg: MessageView,
) -> Ran {
    let same = Ran { relay, routes, hub, outcome: OutcomeView::Nothing };
    let violation = Ran {
        relay: RelayView {
            session: relay.session.fail(SessionError::ProtocolViolation),
            ..relay
        },
        outcome: OutcomeView::Fail(SessionError::ProtocolViolation),
        ..same
    };
    if relay.session.state == SessionState::Closed {
        same
    } else {
        match msg {
            MessageView::ClientSetup(m) => Ran {
                relay: RelayView {
                    session: relay.session.on_client_setup(m, supported),
                    ..relay
                },
                outcome: match relay.session.accepts(m, supported) {
                    Ok(v) => OutcomeView::Send(
                        MessageView::ServerSetup(
                            ServerSetupView { version: v, role: Role::Both, params: Seq::empty() },
                        ),
                    ),
                    Err(e) => OutcomeView::Fail(e),
                },
                ..same
            },
            MessageView::Subscribe(m) => {
                let decision = relay.session.decides(
                    m,
                    spec_resolve(routes, hub, m.track_namespace, m.track_name),
                );
                Ran {
                    relay: RelayView { session: relay.session.after(decision), ..relay },
                    outcome: spec_subscribe_outcome(decision),
                    ..same
                }
            },
            MessageView::SubscribeOk(m) => if relay.session.expects(m.id, true) {
                Ran {
                    relay: RelayView { session: relay.session.on_subscribe_ok(m.id), ..relay },
                    ..same
                }
            } else {
                violation
            },
            MessageView::SubscribeError(m) => if relay.session.expects(m.id, false) {
                Ran {
                    relay: RelayView { session: relay.session.on_subscribe_end(m.id), ..relay },
                    hub: hub.close_track(
                        relay.session.outgoing[m.id].track as nat,
                        spec_end_closure(m.code, false),
                    ),
                    ..same
                }
            } else {
                violation
            },
            MessageView::SubscribeDone(m) => if relay.session.expects(m.id, false) {
                Ran {
                    relay: RelayView { session: relay.session.on_subscribe_end(m.id), ..relay },
                    hub: hub.close_track(
                        relay.session.outgoing[m.id].track as nat,
                        spec_end_closure(m.code, true),
                    ),
                    ..same
                }
            } else {
                violation
            },
            MessageView::Unsubscribe(m) => Ran {
                relay: RelayView { session: relay.session.end_incoming(m.id), ..relay },
                outcome: if relay.session.incoming.contains_key(m.id) {
                    OutcomeView::Release { id: m.id, track: relay.session.incoming[m.id].track }
                } else {
                    OutcomeView::Nothing
                },
                ..same
            },
            MessageView::Announce(m) => match spec_announce_decision(relay, m.track_namespace) {
                AnnounceReply::Accept => Ran {
                    relay: RelayView {
                        announced: relay.announced.push((m.track_namespace, hub.broadcasts.len())),
                        ..relay
                    },
                    routes: spec_announce(routes, m.track_namespace, hub.broadcasts.len()),
                    hub: hub.produce().set_unknown(
                        hub.broadcasts.len(),
                        UnknownReader { id: relay.id },
                    ),
                    outcome: OutcomeView::Send(
                        MessageView::AnnounceOk(
                            AnnounceOkView { track_namespace: m.track_namespace },
                        ),
                    ),
                },
                AnnounceReply::Refuse { code } => Ran {
                    outcome: OutcomeView::Send(
                        MessageView::AnnounceError(
                            AnnounceErrorView {
                                track_namespace: m.track_namespace,
                                code,
                                reason: Seq::empty(),
                            },
                        ),
                    ),
                    ..same
                },
                AnnounceReply::Violation => violation,
                AnnounceReply::Ignored => same,
            },
            MessageView::Unannounce(m) => Ran {
                relay: RelayView {
                    announced: spec_withdrawn(relay.announced, m.track_namespace),
                    ..relay
                },
                routes: spec_withdrawn_routes(routes, relay.announced, m.track_namespace),
                hub: spec_withdrawn_hub(hub, relay.announced, m.track_namespace),
                outcome: OutcomeView::Nothing,
            },
            MessageView::GoAway(m) => Ran {
                relay: RelayView { session: relay.session.on_go_away(), ..relay },
                outcome: if relay.session.state == SessionState::Handshaking {
                    OutcomeView::Fail(SessionError::ProtocolViolation)
                } else {
                    OutcomeView::Nothing
                },
                ..same
            },
            MessageView::ServerSetup(_) => violation,
            MessageView::AnnounceOk(_) => violation,
            MessageView::AnnounceError(_) => violation,
        }
    }
}

impl Session {
    /// Takes one control message from the peer, does what it asks of the
    /// session, the router and the hub, and says what is left to do: see
    /// `spec_run`. `supported` are the versions of this relay in order of
    /// preference. A consumer that is handed out to be served stands at the
    /// first group of its track.
    pub fn run(
        &mut self,
        router: &mut Origins,
        hub: &mut Hub,
        supported: &[u64],
        msg: &Message,
    ) -> (r: Outcome)
        requires
            old(self).wf(),
            old(router).wf(),
            old(hub).wf(),
        ensures
            final(self).wf(),
            final(router).wf(),
            final(hub).wf(),
            final(self)@ == spec_run(
                old(self)@,
                old(router)@,
                old(hub)@,
                supported@,
                msg@,
            ).relay,
            final(router)@ == spec_run(
                old(self)@,
                old(router)@,
                old(hub)@,
                supported@,
                msg@,
            ).routes,
            final(hub)@ == spec_run(old(self)@, old(router)@, old(hub)@, supported@, msg@).hub,
            r@ == spec_run(old(self)@, old(router)@, old(hub)@, supported@, msg@).outcome,
            r matches Outcome::Serve { track, .. } ==> track.cursor() == 0,
    {
        if self.session.state() == SessionState::Closed {
            return Outcome::Nothing;
        }
        match msg {
            Message::ClientSetup(m) => match self.accept(m, supported) {
                Ok(setup) => Outcome::Send(Message::ServerSetup(setup)),
                Err(e) => Outcome::Fail(e),
            },
            Message::Subscribe(m) => {
                let reply = self.on_subscribe(router, hub, m);
                let message = reply.message();
                match reply {
                    SubscribeReply::Accept { id, alias, track } => match message {
                        Some(reply) => Outcome::Serve { reply, id, alias, track },
                        None => Outcome::Nothing,
                    },
                    SubscribeReply::Defer { id, alias, handler } => Outcome::Ask { handler },
                    SubscribeReply::Refuse { id, alias, code } => match message {
                        Some(reply) => Outcome::Send(reply),
                        None => Outcome::Nothing,
                    },
                    SubscribeReply::Violation => Outcome::Fail(SessionError::ProtocolViolation),
                    SubscribeReply::Ignored => Outcome::Nothing,
                }
            },
            Message::SubscribeOk(m) => {
                let r = self.session.on_subscribe_ok(m);
                assert(self@.announced =~= old(self)@.announced);
                match r {
                    Ok(_) => Outcome::Nothing,
                    Err(e) => Outcome::Fail(e),
                }
            },
            Message::SubscribeError(m) => {
                let r = self.session.on_subscribe_error(m);
                assert(self@.announced =~= old(self)@.announced);
                match r {
                    Ok((track, closure)) => {
                        let _ = hub.close_track(track, closure);
                        Outcome::Nothing
                    },
                    Err(e) => Outcome::Fail(e),
                }
            },
            Message::SubscribeDone(m) => {
                let r = self.session.on_subscribe_done(m);
                assert(self@.announced =~= old(self)@.announced);
                match r {
                    Ok((track, closure)) => {
                        let _ = hub.close_track(track, closure);
                        Outcome::Nothing
                    },
                    Err(e) => Outcome::Fail(e),
                }
            },
            Message::Unsubscribe(m) => {
                let r = self.session.on_unsubscribe(m);
                assert(self@.announced =~= old(self)@.announced);
                match r {
                    Some(served) => Outcome::Release { id: m.id, track: served.track },
                    None => Outcome::Nothing,
                }
            },
            Message::Announce(m) => match self.on_announce(router, hub, m) {
                AnnounceOutcome::Accepted(reply) => Outcome::Send(reply),
                AnnounceOutcome::Refused(reply) => Outcome::Send(reply),
                AnnounceOutcome::Violation => Outcome::Fail(SessionError::ProtocolViolation),
                AnnounceOutcome::Ignored => Outcome::Nothing,
            },
            Message::Unannounce(m) => {
                let _ = self.on_unannounce(router, hub, m);
                Outcome::Nothing
            },
            Message::GoAway(_) => {
                let handshaking = self.session.state() == SessionState::Handshaking;
                self.session.on_go_away();
                assert(self@.announced =~= old(self)@.announced);
                if handshaking {
                    Outcome::Fail(SessionError::ProtocolViolation)
                } else {
                    Outcome::Nothing
                }
            },
            _ => {
                self.session.on_decode_error();
                assert(self@.announced =~= old(self)@.announced);
                Outcome::Fail(SessionError::ProtocolViolation)
            },
        }
    }

    /// The track that is served for the subscription `id` has ended with
    /// `closure`: the subscription leaves the table, and the answer is the
    /// message that tells the peer, as
    /// `crate::session::Session::finish_incoming` does.
    pub fn finish_incoming(&mut self, id: u64, closure: Closed) -> (r: Option<Message>)
        requires
            old(self).wf(),
        ensures
            final(self).wf(),
            final(self)@ == (RelayView {
                session: old(self)@.session.end_incoming(id),
                ..old(self)@
            }),
            r is Some <==> old(self)@.session.incoming.contains_key(id),
            r matches Some(m) ==> m@ == crate::session::spec_closure_message(
                id,
                old(self)@.session.incoming[id].alias,
                closure,
            ),
    {
        let r = self.session.finish_incoming(id, closure);
        assert(self@.announced =~= old(self)@.announced);
        r
    }

    /// The control stream held something that is no message, or ended in
    /// the middle of one: the session is closed with `ProtocolViolation`.
    pub fn on_decode_error(&mut self)
        requires
            old(self).wf(),
        ensures
            final(self).wf(),
            final(self)@ == (RelayView {
                session: old(self)@.session.fail(SessionError::ProtocolViolation),
                ..old(self)@
            }),
    {
        self.session.on_decode_error();
        assert(self@.announced =~= old(self)@.announced);
    }

    /// A deadline has passed, as `crate::session::Session::on_deadline`
    /// takes it.
    pub fn on_deadline(&mut self)
        requires
            old(self).wf(),
        ensures
            final(self).wf(),
            final(self)@ == (RelayView { session: old(self)@.session.on_deadline(), ..old(self)@ }),
    {
        self.session.on_deadline();
        assert(self@.announced =~= old(self)@.announced);
    }
}

/// What `fetch` has done for a namespace whose broadcast is the cell
/// `broadcast`.
pub open spec fn spec_fetched(
    before: RelayView,
    hub_before: HubView,
    after: RelayView,
    hub_after: HubView,
    broadcast: nat,
    info: TrackInfo,
    r: Result<(Subscribe, TrackReader), Closed>,
) -> bool {
    let inserted = hub_before.insert_track(broadcast, info);
    let cell = hub_before.tracks.len();
    match hub_before.broadcast_writable(broadcast) {
        Err(e) => (r matches Err(x) && x == e) && hub_after == hub_before && after == before,
        Ok(_) => if before.session.may_subscribe() {
            &&& r matches Ok((msg, reader))
            &&& msg@ == before.session.subscribe_message(info.broadcast, info.name)
            &&& reader.cell() == cell
            &&& reader.cursor() == 0
            &&& reader.spec_info() == info
            &&& hub_after == inserted
            &&& after.session == before.session.subscribe(cell as usize)
        } else {
            &&& r matches Err(x)
            &&& x == Closed::Cancel
            &&& hub_after == inserted.close_track(cell, Closed::Cancel)
            &&& after.session == before.session
        },
    }
}

} // verus!
