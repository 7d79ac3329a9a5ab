use moq::api::decide_origin;
use moq::api::read_origin;
use moq::api::read_status;
use moq::api::ApiError;
use moq::api::Client;
use moq::api::Method;
use moq::api::Origin;
use moq::coding::params::Params;
use moq::error::Closed;
use moq::message::announce::Announce;
use moq::message::announce_error::AnnounceError;
use moq::message::announce_ok::AnnounceOk;
use moq::message::subscribe::FilterType;
use moq::message::subscribe::Subscribe;
use moq::message::go_away::GoAway;
use moq::message::subscribe_done::SubscribeDone;
use moq::message::subscribe_error::SubscribeError;
use moq::message::subscribe_ok::SubscribeOk;
use moq::message::unsubscribe::Unsubscribe;
use moq::message::unannounce::Unannounce;
use moq::message::Message;
use moq::model::broadcast::Subscribed;
use moq::model::broadcast::UnknownReader;
use moq::model::group::Poll;
use moq::model::hub::Hub;
use moq::publish::namespace_or_fresh;
use moq::publish::namespace_with;
use moq::relay::origins::Origins;
use moq::relay::path::broadcast_name;
use moq::relay::path::requested_broadcast;
use moq::relay::session::resolve;
use moq::relay::session::AnnounceOutcome;
use moq::relay::session::Outcome;
use moq::relay::session::Session;
use moq::session::stream::close_group;
use moq::session::stream::open_group;
use moq::session::stream::push;
use moq::session::stream::StreamEnd;
use moq::session::header::GroupHeader;
use moq::session::SessionError;
use moq::session::SessionState;
use moq::session::SubscribeReply;
use moq::setup::ClientSetup;
use moq::setup::Role;
use moq::setup::ServerSetup;

const V: u64 = 0xff00_0004;

fn connect(id: u64, role: Role) -> Session {
    let mut s = Session::new(id);
    let setup = ClientSetup {
        versions: vec![V],
        role,
        params: Params::new(),
    };
    let answer = s.accept(&setup, &[V]).unwrap();
    assert_eq!(answer.version, V);
    assert_eq!(answer.role, Role::Both);
    s
}

fn announce(name: &str) -> Announce {
    Announce {
        track_namespace: name.to_string(),
        auth: None,
        unknown: Params::new(),
    }
}

fn asks(id: u64, namespace: &str, name: &str) -> Subscribe {
    Subscribe {
        id,
        track_alias: id,
        track_namespace: namespace.to_string(),
        track_name: name.to_string(),
        filter_type: FilterType::LatestGroup,
        start: None,
        end: None,
        params: Params::new(),
    }
}

#[test]
fn connect_path_without_its_slashes() {
    assert_eq!(broadcast_name("/room/"), "room");
    assert_eq!(broadcast_name("///a/b//"), "a/b");
    assert_eq!(broadcast_name("room"), "room");
    assert_eq!(broadcast_name("/"), "");
    assert_eq!(broadcast_name("////"), "");
    assert_eq!(broadcast_name(""), "");
    assert_eq!(broadcast_name("/vi\u{1ec7}t/nam/"), "vi\u{1ec7}t/nam");
}

#[test]
fn requested_broadcast_is_the_path_of_the_address() {
    assert_eq!(
        requested_broadcast("https://relay.example:4443/quic.video/demo/?x=1#y"),
        Some("quic.video/demo".to_string())
    );
    assert_eq!(
        requested_broadcast("https://relay.example"),
        Some(String::new())
    );
    assert_eq!(
        requested_broadcast("https://relay.example/a b"),
        Some("a%20b".to_string())
    );
    assert_eq!(requested_broadcast("not a url"), None);
    assert_eq!(requested_broadcast("/only/a/path"), None);
}

fn run(s: &mut Session, router: &mut Origins, hub: &mut Hub, m: Message) -> Outcome {
    s.run(router, hub, &[V], &m)
}

#[test]
fn publisher_announces_and_subscriber_is_served_through_the_relay() {
    let mut hub = Hub::new();
    let mut router = Origins::new();
    let mut publisher = connect(1, Role::Publisher);
    let mut subscriber = connect(2, Role::Subscriber);

    // The publisher announces "test".
    match run(&mut publisher, &mut router, &mut hub, Message::Announce(announce("test"))) {
        Outcome::Send(m) => assert_eq!(
            m,
            Message::AnnounceOk(AnnounceOk {
                track_namespace: "test".to_string()
            })
        ),
        other => panic!("not accepted: {:?}", other),
    }

    // The subscriber asks for ("test", "video"): the relay has to fetch it.
    let request = Message::Subscribe(asks(5, "test", "video"));
    match run(&mut subscriber, &mut router, &mut hub, request.clone()) {
        Outcome::Ask { handler } => assert_eq!(handler, UnknownReader { id: 1 }),
        other => panic!("not deferred: {:?}", other),
    }
    let (upstream, _reader) = publisher.fetch(&mut hub, "test", "video", 0).unwrap();
    assert_eq!(upstream.track_namespace, "test");
    assert_eq!(upstream.track_name, "video");
    let mut served = match run(&mut subscriber, &mut router, &mut hub, request) {
        Outcome::Serve { reply, id: 5, alias: 5, track } => {
            assert_eq!(
                reply,
                Message::SubscribeOk(SubscribeOk {
                    id: 5,
                    expires: 0,
                    latest: None
                })
            );
            track
        }
        other => panic!("not served: {:?}", other),
    };

    // The publisher accepts and sends group 1 with frames [0x01] and [0x02].
    let ok = Message::SubscribeOk(SubscribeOk {
        id: upstream.id,
        expires: 0,
        latest: None,
    });
    assert!(matches!(
        run(&mut publisher, &mut router, &mut hub, ok),
        Outcome::Nothing
    ));
    let header = GroupHeader {
        alias: upstream.track_alias,
        sequence: 1,
        priority: 0,
    };
    let group = open_group(publisher.session(), &mut hub, &header).unwrap();
    assert_eq!(push(&mut hub, &group, &[0x01, 0x01, 0x01, 0x02]), 4);
    close_group(&mut hub, &group, StreamEnd::Finished, 0).unwrap();

    // The subscriber reads one group with the two frames, then its clean end.
    let mut g = match served.next_group(&hub) {
        Poll::Ready(Ok(Some(g))) => g,
        other => panic!("no group: {:?}", other),
    };
    assert_eq!(g.sequence(), 1);
    let mut frames = Vec::new();
    while let Poll::Ready(Ok(Some(f))) = g.next_frame(&hub) {
        frames.push(f.into_bytes());
    }
    assert_eq!(frames, vec![vec![0x01], vec![0x02]]);
    assert_eq!(g.next_frame(&hub), Poll::Ready(Ok(None)));
    assert!(matches!(served.next_group(&hub), Poll::Pending));

    // The publisher ends the subscription: the track ends cleanly too.
    let done = Message::SubscribeDone(SubscribeDone {
        id: upstream.id,
        code: 0,
        reason: String::new(),
        last: None,
    });
    assert!(matches!(
        run(&mut publisher, &mut router, &mut hub, done),
        Outcome::Nothing
    ));
    assert!(matches!(served.next_group(&hub), Poll::Ready(Ok(None))));
    assert_eq!(
        subscriber.finish_incoming(5, Closed::Done),
        Some(Message::SubscribeDone(SubscribeDone {
            id: 5,
            code: 0,
            reason: String::new(),
            last: None
        }))
    );
}

#[test]
fn control_messages_that_a_relay_never_awaits_are_violations() {
    for message in [
        Message::AnnounceOk(AnnounceOk {
            track_namespace: "x".to_string(),
        }),
        Message::AnnounceError(AnnounceError {
            track_namespace: "x".to_string(),
            code: 1,
            reason: String::new(),
        }),
        Message::ServerSetup(ServerSetup {
            version: V,
            role: Role::Both,
            params: Params::new(),
        }),
        Message::SubscribeOk(SubscribeOk {
            id: 9,
            expires: 0,
            latest: None,
        }),
        Message::ClientSetup(ClientSetup {
            versions: vec![V],
            role: Role::Both,
            params: Params::new(),
        }),
    ] {
        let mut hub = Hub::new();
        let mut router = Origins::new();
        let mut peer = connect(1, Role::Both);
        assert!(matches!(
            run(&mut peer, &mut router, &mut hub, message),
            Outcome::Fail(SessionError::ProtocolViolation)
        ));
        assert_eq!(peer.session().state(), SessionState::Closed);
        assert!(matches!(
            run(
                &mut peer,
                &mut router,
                &mut hub,
                Message::Announce(announce("late"))
            ),
            Outcome::Nothing
        ));
        assert_eq!(router.announced("late"), 0);
    }
}

#[test]
fn handshake_through_the_relay() {
    let mut hub = Hub::new();
    let mut router = Origins::new();
    let mut peer = Session::new(1);
    let setup = Message::ClientSetup(ClientSetup {
        versions: vec![1, V],
        role: Role::Subscriber,
        params: Params::new(),
    });
    match run(&mut peer, &mut router, &mut hub, setup) {
        Outcome::Send(Message::ServerSetup(answer)) => {
            assert_eq!(answer.version, V);
            assert_eq!(answer.role, Role::Both);
        }
        other => panic!("no answer: {:?}", other),
    }
    let mut peer = Session::new(2);
    let setup = Message::ClientSetup(ClientSetup {
        versions: vec![1],
        role: Role::Subscriber,
        params: Params::new(),
    });
    assert!(matches!(
        run(&mut peer, &mut router, &mut hub, setup),
        Outcome::Fail(SessionError::UnsupportedVersion)
    ));
    let mut peer = Session::new(3);
    assert!(matches!(
        run(
            &mut peer,
            &mut router,
            &mut hub,
            Message::Subscribe(asks(1, "a", "b"))
        ),
        Outcome::Fail(SessionError::ProtocolViolation)
    ));
    let mut peer = Session::new(4);
    peer.on_deadline();
    assert_eq!(
        peer.session().error(),
        Some(SessionError::HandshakeFailed)
    );
    let mut peer = Session::new(5);
    peer.on_decode_error();
    assert_eq!(
        peer.session().error(),
        Some(SessionError::ProtocolViolation)
    );
}

#[test]
fn unsubscribe_releases_what_was_served() {
    let mut hub = Hub::new();
    let mut router = Origins::new();
    let mut publisher = connect(1, Role::Publisher);
    let mut subscriber = connect(2, Role::Subscriber);
    run(&mut publisher, &mut router, &mut hub, Message::Announce(announce("test")));
    publisher.fetch(&mut hub, "test", "video", 0).unwrap();
    let track = match run(
        &mut subscriber,
        &mut router,
        &mut hub,
        Message::Subscribe(asks(5, "test", "video")),
    ) {
        Outcome::Serve { track, .. } => track,
        other => panic!("not served: {:?}", other),
    };
    match run(
        &mut subscriber,
        &mut router,
        &mut hub,
        Message::Unsubscribe(Unsubscribe { id: 5 }),
    ) {
        Outcome::Release { id: 5, track: cell } => assert_eq!(cell, track.id()),
        other => panic!("not released: {:?}", other),
    }
    assert!(matches!(
        run(
            &mut subscriber,
            &mut router,
            &mut hub,
            Message::Unsubscribe(Unsubscribe { id: 5 })
        ),
        Outcome::Nothing
    ));
    assert_eq!(subscriber.finish_incoming(5, Closed::Done), None);
}

#[test]
fn refused_upstream_subscription_closes_the_track_with_the_code() {
    let mut hub = Hub::new();
    let mut router = Origins::new();
    let mut publisher = connect(1, Role::Publisher);
    run(&mut publisher, &mut router, &mut hub, Message::Announce(announce("test")));
    let (upstream, mut reader) = publisher.fetch(&mut hub, "test", "video", 0).unwrap();
    let refused = Message::SubscribeError(SubscribeError {
        id: upstream.id,
        code: 404,
        reason: "gone".to_string(),
        track_alias: upstream.track_alias,
    });
    assert!(matches!(
        run(&mut publisher, &mut router, &mut hub, refused),
        Outcome::Nothing
    ));
    assert!(matches!(
        reader.next_group(&hub),
        Poll::Ready(Err(Closed::App(404)))
    ));
    assert_eq!(publisher.session().state(), SessionState::Running);
}

#[test]
fn go_away_lets_the_relay_session_drain() {
    let mut hub = Hub::new();
    let mut router = Origins::new();
    let mut peer = connect(1, Role::Both);
    assert!(matches!(
        run(
            &mut peer,
            &mut router,
            &mut hub,
            Message::GoAway(GoAway { url: String::new() })
        ),
        Outcome::Nothing
    ));
    assert_eq!(peer.session().state(), SessionState::Draining);
    match run(&mut peer, &mut router, &mut hub, Message::Announce(announce("late"))) {
        Outcome::Send(Message::AnnounceError(refused)) => assert_eq!(refused.code, 1),
        other => panic!("not refused: {:?}", other),
    }
    assert!(peer.session().drained());
    peer.on_deadline();
    assert_eq!(peer.session().state(), SessionState::Closed);
    assert_eq!(peer.session().error(), None);
}

#[test]
fn newest_publisher_is_served_until_it_disconnects() {
    let mut hub = Hub::new();
    let mut router = Origins::new();
    let mut first = connect(1, Role::Publisher);
    let mut second = connect(2, Role::Publisher);
    assert!(matches!(
        first.on_announce(&mut router, &mut hub, &announce("room")),
        AnnounceOutcome::Accepted(_)
    ));
    assert!(matches!(
        second.on_announce(&mut router, &mut hub, &announce("room")),
        AnnounceOutcome::Accepted(_)
    ));
    let mut viewer = connect(3, Role::Subscriber);
    assert!(matches!(
        viewer.on_subscribe(&router, &hub, &asks(1, "room", "video")),
        SubscribeReply::Defer {
            handler: UnknownReader { id: 2 },
            ..
        }
    ));
    second.close(&mut router, &mut hub);
    let mut late = connect(4, Role::Subscriber);
    assert!(matches!(
        late.on_subscribe(&router, &hub, &asks(1, "room", "video")),
        SubscribeReply::Defer {
            handler: UnknownReader { id: 1 },
            ..
        }
    ));
    first.close(&mut router, &mut hub);
    assert!(matches!(
        late.on_subscribe(&router, &hub, &asks(2, "room", "video")),
        SubscribeReply::Refuse { code: 404, .. }
    ));
}

#[test]
fn subscribe_to_a_name_that_nobody_announced_is_not_found() {
    let hub = Hub::new();
    let router = Origins::new();
    let mut viewer = connect(1, Role::Subscriber);
    let reply = viewer.on_subscribe(&router, &hub, &asks(1, "live", "absent"));
    assert!(matches!(
        reply,
        SubscribeReply::Refuse {
            id: 1,
            alias: 1,
            code: 404
        }
    ));
    assert!(matches!(
        resolve(&router, &hub, "live", "absent"),
        Err(Closed::NotFound)
    ));
}

#[test]
fn announcing_a_namespace_twice_on_one_connection_is_duplicate() {
    let mut hub = Hub::new();
    let mut router = Origins::new();
    let mut publisher = connect(1, Role::Publisher);
    assert!(matches!(
        publisher.on_announce(&mut router, &mut hub, &announce("room")),
        AnnounceOutcome::Accepted(_)
    ));
    match publisher.on_announce(&mut router, &mut hub, &announce("room")) {
        AnnounceOutcome::Refused(m) => assert_eq!(
            m,
            Message::AnnounceError(AnnounceError {
                track_namespace: "room".to_string(),
                code: 409,
                reason: String::new()
            })
        ),
        other => panic!("not refused: {:?}", other),
    }
    assert_eq!(router.announced("room"), 1);
    assert_eq!(publisher.session().state(), SessionState::Running);
}

#[test]
fn announce_from_a_subscriber_is_a_violation() {
    let mut hub = Hub::new();
    let mut router = Origins::new();
    let mut peer = connect(1, Role::Subscriber);
    assert!(matches!(
        peer.on_announce(&mut router, &mut hub, &announce("room")),
        AnnounceOutcome::Violation
    ));
    assert_eq!(peer.session().state(), SessionState::Closed);
    assert!(matches!(
        peer.on_announce(&mut router, &mut hub, &announce("room")),
        AnnounceOutcome::Ignored
    ));
    assert_eq!(router.announced("room"), 0);
}

#[test]
fn unannounce_brings_the_older_publisher_back() {
    let mut hub = Hub::new();
    let mut router = Origins::new();
    let mut first = connect(1, Role::Publisher);
    let mut second = connect(2, Role::Publisher);
    first.on_announce(&mut router, &mut hub, &announce("room"));
    second.on_announce(&mut router, &mut hub, &announce("room"));
    let newest = router.serve("room").unwrap();
    let gone = Unannounce {
        track_namespace: "room".to_string(),
    };
    assert!(second.on_unannounce(&mut router, &mut hub, &gone));
    assert!(!second.on_unannounce(&mut router, &mut hub, &gone));
    assert_eq!(newest.closed(&hub), Poll::Ready(Closed::Done));
    let older = router.serve("room").unwrap();
    assert_ne!(older.id(), newest.id());
    assert_eq!(older.closed(&hub), Poll::Pending);
    assert_eq!(
        second.fetch(&mut hub, "room", "video", 0).err(),
        Some(Closed::NotFound)
    );
}

#[test]
fn fetch_needs_a_session_that_subscribes() {
    let mut hub = Hub::new();
    let mut router = Origins::new();
    let mut publisher = connect(1, Role::Publisher);
    publisher.on_announce(&mut router, &mut hub, &announce("room"));
    let (first, mut reader) = publisher.fetch(&mut hub, "room", "video", 7).unwrap();
    assert_eq!(first.id, 0);
    assert_eq!(reader.info().priority, 7);
    assert!(matches!(reader.next_group(&hub), Poll::Pending));
    let (second, _) = publisher.fetch(&mut hub, "room", "audio", 0).unwrap();
    assert_eq!(second.id, 1);
    assert!(matches!(
        resolve(&router, &hub, "room", "audio"),
        Ok(Subscribed::Track(_))
    ));
    assert_eq!(
        publisher.fetch(&mut hub, "other", "audio", 0).err(),
        Some(Closed::NotFound)
    );
}

#[test]
fn registry_addresses() {
    let client = Client::new("HTTP://Registry.Example:80/api/").unwrap();
    assert_eq!(client.url(), "http://registry.example/api/");
    let get = client.get_origin("demo").unwrap();
    assert_eq!(get.method, Method::Get);
    assert_eq!(get.url, "http://registry.example/api/origin/demo");
    assert_eq!(get.origin, None);
    let origin = Origin {
        url: "https://relay.example/".to_string(),
    };
    let post = client.set_origin("quic.video/demo", origin.clone()).unwrap();
    assert_eq!(post.method, Method::Post);
    assert_eq!(
        post.url,
        "http://registry.example/api/origin/quic.video/demo"
    );
    assert_eq!(post.origin, Some(origin.clone()));
    let patch = client.patch_origin("demo", origin.clone()).unwrap();
    assert_eq!(patch.method, Method::Patch);
    assert_eq!(patch.origin, Some(origin));
    let delete = client.delete_origin("demo").unwrap();
    assert_eq!(delete.method, Method::Delete);
    assert_eq!(delete.origin, None);
    assert_eq!(
        client.origin_url("a b"),
        Ok("http://registry.example/api/origin/a%20b".to_string())
    );
}

#[test]
fn registry_address_without_a_trailing_slash_replaces_the_last_segment() {
    let client = Client::new("https://registry.example/api").unwrap();
    assert_eq!(
        client.origin_url("demo"),
        Ok("https://registry.example/origin/demo".to_string())
    );
}

#[test]
fn registry_address_that_is_no_url() {
    assert_eq!(Client::new("registry").err(), Some(ApiError::InvalidUrl));
    assert_eq!(Client::new("").err(), Some(ApiError::InvalidUrl));
    let odd = Client::new("mailto:someone@example.com").unwrap();
    assert_eq!(odd.origin_url("demo"), Err(ApiError::InvalidUrl));
    assert_eq!(odd.get_origin("demo").err(), Some(ApiError::InvalidUrl));
}

#[test]
fn registry_answers() {
    assert_eq!(read_origin(404, None), Ok(None));
    assert_eq!(read_origin(404, Some("https://x.example")), Ok(None));
    assert_eq!(
        read_origin(200, Some("HTTPS://Relay.Example")),
        Ok(Some(Origin {
            url: "https://relay.example/".to_string()
        }))
    );
    assert_eq!(read_origin(200, Some("nonsense")), Err(ApiError::InvalidUrl));
    assert_eq!(read_origin(200, None), Err(ApiError::Network));
    assert_eq!(read_origin(500, None), Err(ApiError::Http(500)));
    assert_eq!(
        read_origin(301, Some("https://x.example")),
        Err(ApiError::Http(301))
    );
    assert_eq!(read_origin(199, None), Err(ApiError::Http(199)));
    assert_eq!(read_origin(300, None), Err(ApiError::Http(300)));
    assert!(read_origin(299, Some("https://x.example")).is_ok());
    assert_eq!(
        decide_origin(200, Some(Some("kept as it is".to_string()))),
        Ok(Some(Origin {
            url: "kept as it is".to_string()
        }))
    );
    assert_eq!(decide_origin(200, Some(None)), Err(ApiError::InvalidUrl));
    assert_eq!(read_status(200), Ok(()));
    assert_eq!(read_status(204), Ok(()));
    assert_eq!(read_status(299), Ok(()));
    assert_eq!(read_status(404), Err(ApiError::Http(404)));
    assert_eq!(read_status(100), Err(ApiError::Http(100)));
    assert_eq!(read_status(300), Err(ApiError::Http(300)));
    assert_eq!(ApiError::Http(503).code(), 503);
    assert_eq!(ApiError::Network.code(), 0);
    assert_eq!(ApiError::InvalidUrl.code(), 1);
}

#[test]
fn namespace_defaults_to_a_fresh_identifier() {
    assert_eq!(namespace_with("mine", "id"), "mine");
    assert_eq!(namespace_with("", "id"), "quic.video/id");
    assert_eq!(namespace_or_fresh("mine"), "mine");
    let a = namespace_or_fresh("");
    let b = namespace_or_fresh("");
    assert!(a.starts_with("quic.video/"));
    assert_eq!(a.len(), 11 + 36);
    assert_eq!(a.as_bytes()[11 + 8], b'-');
    assert_ne!(a, b);
}
