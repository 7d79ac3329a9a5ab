use moq::coding::params::Params;
use moq::error::Closed;
use moq::message::announce_error::AnnounceError;
use moq::message::announce_ok::AnnounceOk;
use moq::message::subscribe::FilterType;
use moq::message::subscribe::Subscribe;
use moq::message::subscribe_done::SubscribeDone;
use moq::message::subscribe_error::SubscribeError;
use moq::message::subscribe_ok::SubscribeOk;
use moq::message::unsubscribe::Unsubscribe;
use moq::message::Message;
use moq::model::broadcast::Broadcast;
use moq::model::broadcast::Subscribed;
use moq::model::broadcast::UnknownReader;
use moq::model::group::Poll;
use moq::model::hub::Hub;
use moq::model::track::Track;
use moq::model::track::TrackWriter;
use moq::session::closure_message;
use moq::session::fanout::Fanout;
use moq::session::fanout::Plan;
use moq::session::header::GroupHeader;
use moq::session::roles_compatible;
use moq::session::select_version;
use moq::session::stream::close_group;
use moq::session::stream::open_group;
use moq::session::stream::pull;
use moq::session::stream::push;
use moq::session::stream::stream_header;
use moq::session::stream::Chunk;
use moq::session::stream::StreamEnd;
use moq::session::AnnounceReply;
use moq::session::Incoming;
use moq::session::Session;
use moq::session::SessionError;
use moq::session::SessionState;
use moq::session::SubscribeReply;
use moq::setup::ClientSetup;
use moq::setup::Role;
use moq::setup::ServerSetup;

const V1: u64 = 0xff00_0001;
const V2: u64 = 0xff00_0002;

fn client_setup(versions: Vec<u64>, role: Role) -> ClientSetup {
    ClientSetup {
        versions,
        role,
        params: Params::new(),
    }
}

fn running(local: Role, peer: Role) -> Session {
    let mut s = Session::new(local);
    s.accept(&client_setup(vec![V1], peer), &[V1]).unwrap();
    assert_eq!(s.state(), SessionState::Running);
    s
}

fn subscribe_message(id: u64, name: &str) -> Subscribe {
    Subscribe {
        id,
        track_alias: id + 100,
        track_namespace: "live".to_string(),
        track_name: name.to_string(),
        filter_type: FilterType::LatestGroup,
        start: None,
        end: None,
        params: Params::new(),
    }
}

fn a_track(hub: &mut Hub) -> (TrackWriter, Result<Subscribed, Closed>) {
    let (writer, reader) = Broadcast::new("live").produce(hub);
    let track = writer.create("video", 0).build(hub).unwrap();
    let found = reader.subscribe(hub, &Track::new("live", "video", 0).build());
    (track, found)
}

#[test]
fn server_selects_its_first_version_that_the_client_offers() {
    assert_eq!(select_version(&[V1, V2], &[V2, V1]), Some(V2));
    assert_eq!(select_version(&[V1, V2], &[V1, V2]), Some(V1));
    assert_eq!(select_version(&[V1], &[V2, V1]), Some(V1));
    assert_eq!(select_version(&[V1], &[V2]), None);
    assert_eq!(select_version(&[], &[V2]), None);
    assert_eq!(select_version(&[V1], &[]), None);
    assert_eq!(select_version(&[7, 7, 8], &[9, 8, 7]), Some(8));
}

#[test]
fn roles_need_a_common_direction() {
    assert!(roles_compatible(Role::Publisher, Role::Subscriber));
    assert!(roles_compatible(Role::Subscriber, Role::Publisher));
    assert!(roles_compatible(Role::Both, Role::Both));
    assert!(roles_compatible(Role::Both, Role::Publisher));
    assert!(roles_compatible(Role::Subscriber, Role::Both));
    assert!(!roles_compatible(Role::Publisher, Role::Publisher));
    assert!(!roles_compatible(Role::Subscriber, Role::Subscriber));
}

#[test]
fn handshake_of_server_and_client() {
    let (mut client, setup) = Session::client(Role::Publisher, vec![V1, V2]);
    assert_eq!(setup, client_setup(vec![V1, V2], Role::Publisher));
    let mut server = Session::new(Role::Both);
    assert_eq!(server.state(), SessionState::Handshaking);
    let answer = server.accept(&setup, &[V2, V1]).unwrap();
    assert_eq!(
        answer,
        ServerSetup {
            version: V2,
            role: Role::Both,
            params: Params::new()
        }
    );
    assert_eq!(server.state(), SessionState::Running);
    assert_eq!(server.version(), Some(V2));
    assert_eq!(client.confirm(&answer), Ok(()));
    assert_eq!(client.state(), SessionState::Running);
    assert_eq!(client.version(), Some(V2));
    assert_eq!(client.error(), None);
}

#[test]
fn handshake_without_a_common_version_is_unsupported_version() {
    let mut server = Session::new(Role::Both);
    assert_eq!(
        server.accept(&client_setup(vec![V1], Role::Both), &[V2]),
        Err(SessionError::UnsupportedVersion)
    );
    assert_eq!(server.state(), SessionState::Closed);
    assert_eq!(server.error(), Some(SessionError::UnsupportedVersion));
    let (mut client, _) = Session::client(Role::Both, vec![V1]);
    let answer = ServerSetup {
        version: V2,
        role: Role::Both,
        params: Params::new(),
    };
    assert_eq!(client.confirm(&answer), Err(SessionError::UnsupportedVersion));
    assert_eq!(client.state(), SessionState::Closed);
}

#[test]
fn handshake_with_roles_that_allow_no_flow_fails() {
    let mut server = Session::new(Role::Publisher);
    assert_eq!(
        server.accept(&client_setup(vec![V1], Role::Publisher), &[V1]),
        Err(SessionError::HandshakeFailed)
    );
    assert_eq!(server.error(), Some(SessionError::HandshakeFailed));
    let (mut client, _) = Session::client(Role::Subscriber, vec![V1]);
    let answer = ServerSetup {
        version: V1,
        role: Role::Subscriber,
        params: Params::new(),
    };
    assert_eq!(client.confirm(&answer), Err(SessionError::HandshakeFailed));
}

#[test]
fn second_setup_is_a_violation() {
    let mut server = running(Role::Both, Role::Both);
    assert_eq!(
        server.accept(&client_setup(vec![V1], Role::Both), &[V1]),
        Err(SessionError::ProtocolViolation)
    );
    assert_eq!(server.state(), SessionState::Closed);
    assert_eq!(server.error(), Some(SessionError::ProtocolViolation));
}

#[test]
fn handshake_deadline() {
    let mut s = Session::new(Role::Both);
    s.on_deadline();
    assert_eq!(s.state(), SessionState::Closed);
    assert_eq!(s.error(), Some(SessionError::HandshakeFailed));
    let mut s = running(Role::Both, Role::Both);
    s.on_deadline();
    assert_eq!(s.state(), SessionState::Running);
}

#[test]
fn session_error_codes() {
    assert_eq!(SessionError::HandshakeFailed.code(), 1);
    assert_eq!(SessionError::UnsupportedVersion.code(), 2);
    assert_eq!(SessionError::ProtocolViolation.code(), 3);
    assert_eq!(SessionError::TransportError(77).code(), 77);
}

#[test]
fn decode_error_closes_with_protocol_violation() {
    let mut s = running(Role::Both, Role::Both);
    s.on_decode_error();
    assert_eq!(s.state(), SessionState::Closed);
    assert_eq!(s.error(), Some(SessionError::ProtocolViolation));
    s.on_transport_error(5);
    assert_eq!(s.error(), Some(SessionError::ProtocolViolation));
    let mut s = running(Role::Both, Role::Both);
    s.on_transport_error(5);
    assert_eq!(s.error(), Some(SessionError::TransportError(5)));
}

#[test]
fn subscribe_to_an_existing_track_is_accepted() {
    let mut hub = Hub::new();
    let (track, found) = a_track(&mut hub);
    let mut s = running(Role::Both, Role::Subscriber);
    let reply = s.on_subscribe(&subscribe_message(4, "video"), found);
    assert_eq!(
        reply.message(),
        Some(Message::SubscribeOk(SubscribeOk {
            id: 4,
            expires: 0,
            latest: None
        }))
    );
    match reply {
        SubscribeReply::Accept { id, alias, track: reader } => {
            assert_eq!((id, alias), (4, 104));
            assert_eq!(reader.id(), track.id());
        }
        other => panic!("not accepted: {:?}", other),
    }
    assert_eq!(s.state(), SessionState::Running);
    assert_eq!(
        s.on_unsubscribe(&Unsubscribe { id: 4 }),
        Some(Incoming {
            alias: 104,
            track: track.id()
        })
    );
    assert_eq!(s.on_unsubscribe(&Unsubscribe { id: 4 }), None);
}

#[test]
fn subscribe_to_an_unknown_track_is_refused_with_not_found() {
    let mut hub = Hub::new();
    let (_writer, reader) = Broadcast::new("live").produce(&mut hub);
    let found = reader.subscribe(&hub, &Track::new("live", "absent", 0).build());
    let mut s = running(Role::Publisher, Role::Subscriber);
    let reply = s.on_subscribe(&subscribe_message(1, "absent"), found);
    assert!(matches!(
        reply,
        SubscribeReply::Refuse {
            id: 1,
            alias: 101,
            code: 404
        }
    ));
    assert_eq!(
        reply.message(),
        Some(Message::SubscribeError(SubscribeError {
            id: 1,
            code: Closed::NotFound.code(),
            reason: String::new(),
            track_alias: 101
        }))
    );
    assert_eq!(s.state(), SessionState::Running);
    assert_eq!(s.on_unsubscribe(&Unsubscribe { id: 1 }), None);
}

#[test]
fn subscribe_with_a_fallback_is_deferred() {
    let mut s = running(Role::Both, Role::Both);
    let reply = s.on_subscribe(
        &subscribe_message(1, "absent"),
        Ok(Subscribed::Unknown(UnknownReader { id: 9 })),
    );
    assert!(matches!(
        reply,
        SubscribeReply::Defer {
            id: 1,
            alias: 101,
            handler: UnknownReader { id: 9 }
        }
    ));
    assert_eq!(reply.message(), None);
    let mut hub = Hub::new();
    let (_track, found) = a_track(&mut hub);
    assert!(matches!(
        s.on_subscribe(&subscribe_message(1, "absent"), found),
        SubscribeReply::Accept { id: 1, .. }
    ));
}

#[test]
fn absolute_start_without_a_start_pair_is_a_protocol_violation() {
    let mut hub = Hub::new();
    let (_track, found) = a_track(&mut hub);
    let mut s = running(Role::Both, Role::Both);
    let mut msg = subscribe_message(1, "video");
    msg.filter_type = FilterType::AbsoluteStart;
    let reply = s.on_subscribe(&msg, found);
    assert!(matches!(reply, SubscribeReply::Violation));
    assert_eq!(reply.message(), None);
    assert_eq!(s.state(), SessionState::Closed);
    assert_eq!(s.error(), Some(SessionError::ProtocolViolation));
}

#[test]
fn subscribe_with_an_id_in_use_is_a_violation() {
    let mut hub = Hub::new();
    let (_track, found) = a_track(&mut hub);
    let (_track2, found2) = a_track(&mut hub);
    let mut s = running(Role::Both, Role::Both);
    assert!(matches!(
        s.on_subscribe(&subscribe_message(1, "video"), found),
        SubscribeReply::Accept { .. }
    ));
    assert!(matches!(
        s.on_subscribe(&subscribe_message(1, "video"), found2),
        SubscribeReply::Violation
    ));
    assert_eq!(s.state(), SessionState::Closed);
    assert_eq!(s.on_unsubscribe(&Unsubscribe { id: 1 }), None);
}

#[test]
fn subscribe_to_a_side_that_does_not_publish_is_a_violation() {
    let mut hub = Hub::new();
    let (_track, found) = a_track(&mut hub);
    let mut s = running(Role::Subscriber, Role::Publisher);
    assert!(matches!(
        s.on_subscribe(&subscribe_message(1, "video"), found),
        SubscribeReply::Violation
    ));
    let (_track, found) = a_track(&mut hub);
    let mut s = Session::new(Role::Both);
    assert!(matches!(
        s.on_subscribe(&subscribe_message(1, "video"), found),
        SubscribeReply::Violation
    ));
    let (_track, found) = a_track(&mut hub);
    assert!(matches!(
        s.on_subscribe(&subscribe_message(1, "video"), found),
        SubscribeReply::Ignored
    ));
}

#[test]
fn draining_session_takes_no_new_subscription() {
    let mut hub = Hub::new();
    let (track, found) = a_track(&mut hub);
    let (_track2, found2) = a_track(&mut hub);
    let mut s = running(Role::Both, Role::Both);
    assert!(matches!(
        s.on_subscribe(&subscribe_message(1, "video"), found),
        SubscribeReply::Accept { .. }
    ));
    s.on_go_away();
    assert_eq!(s.state(), SessionState::Draining);
    assert!(!s.drained());
    let reply = s.on_subscribe(&subscribe_message(2, "video"), found2);
    assert!(matches!(
        reply,
        SubscribeReply::Refuse {
            id: 2,
            alias: 102,
            code: 1
        }
    ));
    assert!(s.subscribe("live", "video", 0).is_err());
    assert_eq!(s.on_announce(), AnnounceReply::Refuse { code: 1 });
    assert_eq!(s.announce("mine").err(), Some(Closed::Cancel));
    assert_eq!(
        s.finish_incoming(1, Closed::Done),
        Some(Message::SubscribeDone(SubscribeDone {
            id: 1,
            code: 0,
            reason: String::new(),
            last: None
        }))
    );
    assert_eq!(track.id(), track.id());
    assert!(s.drained());
    s.on_deadline();
    assert_eq!(s.state(), SessionState::Closed);
    assert_eq!(s.error(), None);
}

#[test]
fn go_away_during_the_handshake_is_a_violation() {
    let mut s = Session::new(Role::Both);
    s.on_go_away();
    assert_eq!(s.error(), Some(SessionError::ProtocolViolation));
    s.on_go_away();
    assert_eq!(s.state(), SessionState::Closed);
}

#[test]
fn end_of_a_served_track_tells_the_peer() {
    let mut hub = Hub::new();
    let (_track, found) = a_track(&mut hub);
    let mut s = running(Role::Both, Role::Both);
    s.on_subscribe(&subscribe_message(1, "video"), found);
    assert_eq!(
        s.finish_incoming(1, Closed::App(17)),
        Some(Message::SubscribeError(SubscribeError {
            id: 1,
            code: 17,
            reason: String::new(),
            track_alias: 101
        }))
    );
    assert_eq!(s.finish_incoming(1, Closed::Done), None);
    assert_eq!(
        closure_message(3, 4, Closed::Replaced),
        Message::SubscribeError(SubscribeError {
            id: 3,
            code: 2,
            reason: String::new(),
            track_alias: 4
        })
    );
}

#[test]
fn outgoing_subscription_runs_its_course() {
    let mut s = running(Role::Subscriber, Role::Publisher);
    let first = s.subscribe("live", "video", 11).unwrap();
    assert_eq!(
        first,
        Subscribe {
            id: 0,
            track_alias: 0,
            track_namespace: "live".to_string(),
            track_name: "video".to_string(),
            filter_type: FilterType::LatestGroup,
            start: None,
            end: None,
            params: Params::new()
        }
    );
    let second = s.subscribe("live", "audio", 12).unwrap();
    assert_eq!((second.id, second.track_alias), (1, 1));
    assert_eq!(s.route(0), Err(Closed::NotFound));
    let ok = SubscribeOk {
        id: 0,
        expires: 0,
        latest: None,
    };
    assert_eq!(s.on_subscribe_ok(&ok), Ok(11));
    assert_eq!(s.route(0), Ok(11));
    assert_eq!(s.route(1), Err(Closed::NotFound));
    assert_eq!(s.route(2), Err(Closed::NotFound));
    let refused = SubscribeError {
        id: 1,
        code: 404,
        reason: "gone".to_string(),
        track_alias: 1,
    };
    assert_eq!(s.on_subscribe_error(&refused), Ok((12, Closed::App(404))));
    let done = SubscribeDone {
        id: 0,
        code: 0,
        reason: String::new(),
        last: None,
    };
    assert_eq!(s.on_subscribe_done(&done), Ok((11, Closed::Done)));
    assert_eq!(s.route(0), Err(Closed::NotFound));
    assert_eq!(s.state(), SessionState::Running);
    assert_eq!(
        s.on_subscribe_done(&done),
        Err(SessionError::ProtocolViolation)
    );
    assert_eq!(s.state(), SessionState::Closed);
}

#[test]
fn subscribe_done_with_a_code_closes_with_that_code() {
    let mut s = running(Role::Subscriber, Role::Publisher);
    s.subscribe("live", "video", 11).unwrap();
    let done = SubscribeDone {
        id: 0,
        code: 9,
        reason: String::new(),
        last: None,
    };
    assert_eq!(s.on_subscribe_done(&done), Ok((11, Closed::App(9))));
}

#[test]
fn answers_that_nobody_waits_for_are_violations() {
    let ok = SubscribeOk {
        id: 0,
        expires: 0,
        latest: None,
    };
    let mut s = running(Role::Subscriber, Role::Publisher);
    assert_eq!(s.on_subscribe_ok(&ok), Err(SessionError::ProtocolViolation));
    assert_eq!(s.state(), SessionState::Closed);
    let mut s = running(Role::Subscriber, Role::Publisher);
    s.subscribe("live", "video", 11).unwrap();
    assert_eq!(s.on_subscribe_ok(&ok), Ok(11));
    assert_eq!(s.on_subscribe_ok(&ok), Err(SessionError::ProtocolViolation));
    let mut s = running(Role::Subscriber, Role::Publisher);
    let refused = SubscribeError {
        id: 3,
        code: 1,
        reason: String::new(),
        track_alias: 3,
    };
    assert_eq!(
        s.on_subscribe_error(&refused),
        Err(SessionError::ProtocolViolation)
    );
}

#[test]
fn a_side_that_does_not_subscribe_cannot_ask() {
    let mut s = running(Role::Publisher, Role::Subscriber);
    assert_eq!(s.subscribe("live", "video", 1).err(), Some(Closed::Cancel));
    let mut s = Session::new(Role::Both);
    assert_eq!(s.subscribe("live", "video", 1).err(), Some(Closed::Cancel));
}

#[test]
fn announce_and_its_answers() {
    let mut s = running(Role::Publisher, Role::Subscriber);
    let m = s.announce("mine").unwrap();
    assert_eq!(m.track_namespace, "mine");
    assert_eq!(m.auth, None);
    assert_eq!(m.unknown.len(), 0);
    assert_eq!(s.announce("mine").err(), Some(Closed::Duplicate));
    let ok = AnnounceOk {
        track_namespace: "mine".to_string(),
    };
    assert_eq!(s.on_announce_ok(&ok), Ok(()));
    let gone = s.unannounce("mine").unwrap();
    assert_eq!(gone.track_namespace, "mine");
    assert_eq!(s.unannounce("mine"), None);
    s.announce("other").unwrap();
    let refused = AnnounceError {
        track_namespace: "other".to_string(),
        code: 403,
        reason: "no".to_string(),
    };
    assert_eq!(s.on_announce_error(&refused), Ok(Closed::App(403)));
    assert_eq!(s.state(), SessionState::Running);
    assert_eq!(
        s.on_announce_error(&refused),
        Err(SessionError::ProtocolViolation)
    );
    assert_eq!(s.state(), SessionState::Closed);
}

#[test]
fn announce_ok_twice_is_a_violation() {
    let mut s = running(Role::Publisher, Role::Subscriber);
    s.announce("mine").unwrap();
    let ok = AnnounceOk {
        track_namespace: "mine".to_string(),
    };
    assert_eq!(s.on_announce_ok(&ok), Ok(()));
    assert_eq!(s.on_announce_ok(&ok), Err(SessionError::ProtocolViolation));
    let mut s = running(Role::Subscriber, Role::Publisher);
    assert_eq!(s.announce("mine").err(), Some(Closed::Cancel));
}

#[test]
fn announce_from_the_peer() {
    let mut s = running(Role::Both, Role::Publisher);
    assert_eq!(s.on_announce(), AnnounceReply::Accept);
    let mut s = running(Role::Publisher, Role::Subscriber);
    assert_eq!(s.on_announce(), AnnounceReply::Violation);
    assert_eq!(s.state(), SessionState::Closed);
    assert_eq!(s.on_announce(), AnnounceReply::Ignored);
    let mut s = Session::new(Role::Both);
    assert_eq!(s.on_announce(), AnnounceReply::Violation);
}

#[test]
fn group_header_exact_bytes() {
    let h = GroupHeader {
        alias: 5,
        sequence: 300,
        priority: 0,
    };
    let mut out = Vec::new();
    h.encode(&mut out).unwrap();
    assert_eq!(out, vec![0x05, 0x41, 0x2c, 0x00]);
    assert_eq!(GroupHeader::decode(&out), Ok((h, 4)));
    assert!(GroupHeader::decode(&out[..2]).is_err());
}

#[test]
fn group_stream_from_sender_to_receiver() {
    let mut hub = Hub::new();
    let (_w, _r) = Broadcast::new("live").produce(&mut hub);
    let (source, _found) = a_track(&mut hub);
    let g = source.append_group(&mut hub, 7).unwrap();
    g.append_frame(&mut hub, vec![1]).unwrap();
    g.append_frame(&mut hub, vec![]).unwrap();
    let mut reader = g.subscribe();
    let header = stream_header(3, &reader, 9);
    assert_eq!(
        header,
        GroupHeader {
            alias: 3,
            sequence: 7,
            priority: 9
        }
    );
    let mut wire = Vec::new();
    assert_eq!(pull(&hub, &mut reader, &mut wire), Poll::Ready(Chunk::Data));
    assert_eq!(wire, vec![0x01, 0x01]);
    assert_eq!(pull(&hub, &mut reader, &mut wire), Poll::Ready(Chunk::Data));
    assert_eq!(wire, vec![0x01, 0x01, 0x00]);
    assert_eq!(pull(&hub, &mut reader, &mut wire), Poll::Pending);
    g.append_frame(&mut hub, vec![0xaa; 70]).unwrap();
    g.finish(&mut hub).unwrap();
    assert_eq!(pull(&hub, &mut reader, &mut wire), Poll::Ready(Chunk::Data));
    assert_eq!(pull(&hub, &mut reader, &mut wire), Poll::Ready(Chunk::Finish));
    assert_eq!(wire.len(), 3 + 2 + 70);

    let mut session = running(Role::Subscriber, Role::Publisher);
    let (sink, _found) = a_track(&mut hub);
    for _ in 0..3 {
        session.subscribe("live", "video", usize::MAX).unwrap();
    }
    let asked = session.subscribe("live", "video", sink.id()).unwrap();
    assert_eq!(asked.track_alias, 3);
    assert_eq!(
        open_group(&session, &mut hub, &header).err(),
        Some(Closed::NotFound)
    );
    session
        .on_subscribe_ok(&SubscribeOk {
            id: 3,
            expires: 0,
            latest: None,
        })
        .unwrap();
    let received = open_group(&session, &mut hub, &header).unwrap();
    assert_eq!(received.sequence(), 7);
    assert_eq!(
        open_group(&session, &mut hub, &header).err(),
        Some(Closed::Duplicate)
    );
    let taken = push(&mut hub, &received, &wire[..4]);
    assert_eq!(taken, 3);
    let taken = push(&mut hub, &received, &wire[3..]);
    assert_eq!(taken, 72);
    assert_eq!(close_group(&mut hub, &received, StreamEnd::Finished, 0), Ok(()));
    let mut check = received.subscribe();
    let mut frames = Vec::new();
    while let Poll::Ready(Ok(Some(f))) = check.next_frame(&hub) {
        frames.push(f.into_bytes());
    }
    assert_eq!(frames, vec![vec![1], vec![], vec![0xaa; 70]]);
    assert_eq!(check.next_frame(&hub), Poll::Ready(Ok(None)));
}

#[test]
fn reset_stream_aborts_the_group_only() {
    let mut hub = Hub::new();
    let (track, _found) = a_track(&mut hub);
    let g = track.append_group(&mut hub, 1).unwrap();
    assert_eq!(push(&mut hub, &g, &[0x02, 9, 9, 0x05, 1]), 3);
    assert_eq!(close_group(&mut hub, &g, StreamEnd::Reset(33), 2), Ok(()));
    let mut r = g.subscribe();
    assert!(matches!(r.next_frame(&hub), Poll::Ready(Ok(Some(_)))));
    assert_eq!(r.next_frame(&hub), Poll::Ready(Err(Closed::App(33))));
    let mut wire = Vec::new();
    let mut again = g.subscribe();
    assert_eq!(pull(&hub, &mut again, &mut wire), Poll::Ready(Chunk::Data));
    assert_eq!(pull(&hub, &mut again, &mut wire), Poll::Ready(Chunk::Reset(33)));
    assert!(track.append_group(&mut hub, 2).is_ok());

    let h = track.append_group(&mut hub, 3).unwrap();
    assert_eq!(close_group(&mut hub, &h, StreamEnd::Finished, 1), Ok(()));
    assert_eq!(
        h.subscribe().next_frame(&hub),
        Poll::Ready(Err(Closed::App(1)))
    );
    assert_eq!(
        close_group(&mut hub, &h, StreamEnd::Finished, 0),
        Err(Closed::App(1))
    );
}

#[test]
fn fanout_returns_when_nothing_can_come() {
    let mut f = Fanout::new();
    assert_eq!(f.plan(), Plan::AwaitSource);
    f.on_item();
    f.on_item();
    assert_eq!(f.plan(), Plan::AwaitEither);
    f.on_task(true);
    assert_eq!(f.plan(), Plan::AwaitEither);
    f.on_source_done();
    assert_eq!(f.plan(), Plan::AwaitTask);
    f.on_task(true);
    assert_eq!(f.plan(), Plan::Return(true));
    f.on_task(true);
    assert_eq!(f.running, 0);
    let mut f = Fanout::new();
    f.on_source_done();
    assert_eq!(f.plan(), Plan::Return(true));
}

#[test]
fn fanout_returns_the_first_failure() {
    let mut f = Fanout::new();
    f.on_item();
    f.on_item();
    f.on_task(false);
    assert_eq!(f.plan(), Plan::Return(false));
    f.on_source_done();
    f.on_task(true);
    assert_eq!(f.plan(), Plan::Return(false));
}

#[test]
fn sending_go_away_lets_a_running_session_drain() {
    let mut s = Session::new(Role::Both);
    assert_eq!(s.go_away("https://next.example"), None);
    assert_eq!(s.state(), SessionState::Handshaking);
    let mut s = running(Role::Both, Role::Both);
    let m = s.go_away("https://next.example").unwrap();
    assert_eq!(m.url, "https://next.example");
    assert_eq!(s.state(), SessionState::Draining);
    assert_eq!(s.go_away(""), None);
    assert!(s.drained());
}
