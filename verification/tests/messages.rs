use moq::coding::params::Params;
use moq::coding::varint::VARINT_MAX;
use moq::error::DecodeError;
use moq::error::EncodeError;
use moq::message::announce::Announce;
use moq::message::announce_error::AnnounceError;
use moq::message::announce_ok::AnnounceOk;
use moq::message::go_away::GoAway;
use moq::message::position::Position;
use moq::message::subscribe::FilterType;
use moq::message::subscribe::Subscribe;
use moq::message::subscribe::SubscribeLocation;
use moq::message::subscribe::SubscribePair;
use moq::message::subscribe_done::SubscribeDone;
use moq::message::subscribe_error::SubscribeError;
use moq::message::subscribe_ok::SubscribeOk;
use moq::message::unannounce::Unannounce;
use moq::message::unsubscribe::Unsubscribe;
use moq::message::Message;
use moq::setup::ClientSetup;
use moq::setup::Role;
use moq::setup::ServerSetup;

fn subscribe(filter_type: FilterType, start: Option<SubscribePair>, end: Option<SubscribePair>) -> Subscribe {
    Subscribe {
        id: 1,
        track_alias: 2,
        track_namespace: "ns".to_string(),
        track_name: "video".to_string(),
        filter_type,
        start,
        end,
        params: Params::new(),
    }
}

fn pair(group: SubscribeLocation, object: SubscribeLocation) -> SubscribePair {
    SubscribePair { group, object }
}

fn wire_of(m: &Message) -> Vec<u8> {
    let mut out = Vec::new();
    m.encode(&mut out).unwrap();
    out
}

fn assert_round_trip(m: Message) {
    let wire = wire_of(&m);
    assert_eq!(Message::decode(&wire), Ok((m.clone(), wire.len())));
    let mut longer = wire.clone();
    longer.extend_from_slice(&[0xde, 0xad]);
    assert_eq!(Message::decode(&longer), Ok((m, wire.len())));
}

#[test]
fn subscribe_location_ids() {
    assert_eq!(SubscribeLocation::Absent.id(), 0);
    assert_eq!(SubscribeLocation::Absolute(9).id(), 1);
    assert_eq!(SubscribeLocation::Latest(9).id(), 2);
    assert_eq!(SubscribeLocation::Future(9).id(), 3);
    assert_eq!(SubscribeLocation::Future(9).value(), 9);
}

#[test]
fn subscribe_location_wire_form() {
    for (location, bytes) in [
        (SubscribeLocation::Absent, vec![0x00]),
        (SubscribeLocation::Absolute(5), vec![0x01, 0x05]),
        (SubscribeLocation::Latest(64), vec![0x02, 0x40, 0x40]),
        (SubscribeLocation::Future(0), vec![0x03, 0x00]),
    ] {
        let mut out = Vec::new();
        location.encode(&mut out).unwrap();
        assert_eq!(out, bytes);
        assert_eq!(
            SubscribeLocation::decode_at(&out, 0),
            Ok((location, out.len()))
        );
    }
}

#[test]
fn subscribe_location_of_unknown_kind_is_invalid() {
    assert_eq!(
        SubscribeLocation::decode_at(&[0x04, 0x00], 0),
        Err(DecodeError::InvalidSubscribeLocation)
    );
    assert_eq!(
        SubscribeLocation::decode_at(&[0x01], 0),
        Err(DecodeError::MissingField)
    );
}

#[test]
fn subscribe_latest_group_exact_bytes() {
    let m = subscribe(FilterType::LatestGroup, None, None);
    let mut out = Vec::new();
    m.encode(&mut out).unwrap();
    assert_eq!(
        out,
        vec![0x01, 0x02, 0x02, b'n', b's', 0x05, b'v', b'i', b'd', b'e', b'o', 0x01, 0x00]
    );
    assert_eq!(Subscribe::decode(&out), Ok((m, out.len())));
}

#[test]
fn subscribe_absolute_start_carries_the_start_pair_only() {
    let start = pair(SubscribeLocation::Absolute(3), SubscribeLocation::Latest(1));
    let m = subscribe(FilterType::AbsoluteStart, Some(start), None);
    let mut out = Vec::new();
    m.encode(&mut out).unwrap();
    assert_eq!(
        &out[11..],
        &[0x03, 0x01, 0x03, 0x02, 0x01, 0x00]
    );
    assert_eq!(Subscribe::decode(&out), Ok((m, out.len())));
}

#[test]
fn subscribe_absolute_range_carries_both_pairs() {
    let start = pair(SubscribeLocation::Absolute(3), SubscribeLocation::Absent);
    let end = pair(SubscribeLocation::Future(9), SubscribeLocation::Absolute(2));
    let m = subscribe(FilterType::AbsoluteRange, Some(start), Some(end));
    let mut out = Vec::new();
    m.encode(&mut out).unwrap();
    assert_eq!(
        &out[11..],
        &[0x04, 0x01, 0x03, 0x00, 0x03, 0x09, 0x01, 0x02, 0x00]
    );
    assert_eq!(Subscribe::decode(&out), Ok((m, out.len())));
}

#[test]
fn subscribe_without_a_required_pair_is_missing_field() {
    let mut out = vec![0xee];
    let m = subscribe(FilterType::AbsoluteStart, None, None);
    assert!(!m.complete());
    assert_eq!(m.encode(&mut out), Err(EncodeError::MissingField));
    assert_eq!(out, vec![0xee]);
    let start = pair(SubscribeLocation::Absolute(3), SubscribeLocation::Absent);
    let m = subscribe(FilterType::AbsoluteRange, Some(start), None);
    assert_eq!(m.encode(&mut out), Err(EncodeError::MissingField));
    let m = subscribe(FilterType::AbsoluteRange, None, Some(start));
    assert_eq!(m.encode(&mut out), Err(EncodeError::MissingField));
    assert_eq!(out, vec![0xee]);
}

#[test]
fn subscribe_with_a_number_too_large_is_bounds_exceeded() {
    let mut m = subscribe(FilterType::LatestGroup, None, None);
    m.id = VARINT_MAX + 1;
    let mut out = Vec::new();
    assert_eq!(m.encode(&mut out), Err(EncodeError::BoundsExceeded));
    assert!(out.is_empty());
    let start = pair(SubscribeLocation::Absolute(u64::MAX), SubscribeLocation::Absent);
    let m = subscribe(FilterType::AbsoluteStart, Some(start), None);
    assert_eq!(m.encode(&mut out), Err(EncodeError::BoundsExceeded));
    assert!(out.is_empty());
}

#[test]
fn subscribe_does_not_write_a_pair_that_the_filter_does_not_call_for() {
    let extra = pair(SubscribeLocation::Absolute(3), SubscribeLocation::Absent);
    let with = subscribe(FilterType::LatestObject, Some(extra), Some(extra));
    let without = subscribe(FilterType::LatestObject, None, None);
    let mut a = Vec::new();
    let mut b = Vec::new();
    with.encode(&mut a).unwrap();
    without.encode(&mut b).unwrap();
    assert_eq!(a, b);
    assert_eq!(Subscribe::decode(&a), Ok((without, a.len())));
}

#[test]
fn subscribe_absolute_filter_with_too_few_bytes_left_is_missing_field() {
    let head = [0x01, 0x02, 0x02, b'n', b's', 0x05, b'v', b'i', b'd', b'e', b'o'];
    let mut wire = head.to_vec();
    wire.extend_from_slice(&[0x03, 0x07]);
    assert_eq!(Subscribe::decode(&wire), Err(DecodeError::MissingField));
    let mut wire = head.to_vec();
    wire.extend_from_slice(&[0x04, 0x00, 0x00, 0x00]);
    assert_eq!(Subscribe::decode(&wire), Err(DecodeError::MissingField));
    let mut wire = head.to_vec();
    wire.extend_from_slice(&[0x03]);
    assert_eq!(Subscribe::decode(&wire), Err(DecodeError::MissingField));
}

#[test]
fn subscribe_object_without_group_is_invalid_location() {
    let head = [0x01, 0x02, 0x02, b'n', b's', 0x05, b'v', b'i', b'd', b'e', b'o'];
    let mut wire = head.to_vec();
    wire.extend_from_slice(&[0x03, 0x00, 0x01, 0x05, 0x00]);
    assert_eq!(
        Subscribe::decode(&wire),
        Err(DecodeError::InvalidSubscribeLocation)
    );
    let mut wire = head.to_vec();
    wire.extend_from_slice(&[0x04, 0x01, 0x01, 0x00, 0x00, 0x02, 0x01, 0x00]);
    assert_eq!(
        Subscribe::decode(&wire),
        Err(DecodeError::InvalidSubscribeLocation)
    );
    let mut wire = head.to_vec();
    wire.extend_from_slice(&[0x03, 0x00, 0x00, 0x00]);
    assert!(Subscribe::decode(&wire).is_ok());
}

#[test]
fn subscribe_with_an_unknown_filter_is_invalid_message() {
    let mut wire = vec![0x01, 0x02, 0x02, b'n', b's', 0x05, b'v', b'i', b'd', b'e', b'o'];
    wire.extend_from_slice(&[0x09, 0x00]);
    assert_eq!(
        Subscribe::decode(&wire),
        Err(DecodeError::InvalidMessage(9))
    );
    assert_eq!(FilterType::from_id(0), None);
    assert_eq!(FilterType::from_id(4), Some(FilterType::AbsoluteRange));
    assert_eq!(FilterType::LatestObject.id(), 2);
}

#[test]
fn subscribe_with_a_name_that_is_not_utf8_is_invalid_string() {
    let wire = [0x01, 0x02, 0x02, 0xff, 0xfe, 0x00, 0x01, 0x00];
    assert_eq!(Subscribe::decode(&wire), Err(DecodeError::InvalidString));
}

#[test]
fn announce_carries_the_token_as_parameter_two() {
    let mut unknown = Params::new();
    unknown.insert(0x11, vec![0xaa]);
    let m = Announce {
        track_namespace: "live".to_string(),
        auth: Some(vec![b's', b'e', b'c']),
        unknown,
    };
    let mut out = Vec::new();
    m.encode(&mut out).unwrap();
    assert_eq!(
        out,
        vec![0x04, b'l', b'i', b'v', b'e', 0x02, 0x02, 0x03, b's', b'e', b'c', 0x11, 0x01, 0xaa]
    );
    assert_eq!(Announce::decode(&out), Ok((m, out.len())));
}

#[test]
fn announce_without_a_token() {
    let m = Announce {
        track_namespace: "live".to_string(),
        auth: None,
        unknown: Params::new(),
    };
    let mut out = Vec::new();
    m.encode(&mut out).unwrap();
    assert_eq!(out, vec![0x04, b'l', b'i', b'v', b'e', 0x00]);
    assert_eq!(Announce::decode(&out), Ok((m, out.len())));
}

#[test]
fn announce_finds_the_token_wherever_it_stands() {
    let wire = [0x01, b'x', 0x02, 0x11, 0x01, 0xaa, 0x02, 0x01, 0x55];
    let (m, n) = Announce::decode(&wire).unwrap();
    assert_eq!(n, wire.len());
    assert_eq!(m.auth, Some(vec![0x55]));
    assert_eq!(m.unknown.len(), 1);
    assert_eq!(m.unknown.get(0x11), Some(&vec![0xaa]));
    assert!(!m.unknown.contains(2));
}

#[test]
fn announce_with_two_tokens_is_duplicate_param() {
    let wire = [0x01, b'x', 0x02, 0x02, 0x00, 0x02, 0x00];
    assert_eq!(Announce::decode(&wire), Err(DecodeError::DuplicateParam));
}

#[test]
fn every_kind_of_message_round_trips() {
    let mut params = Params::new();
    params.insert(0x21, vec![1, 2, 3]);
    assert_round_trip(Message::ClientSetup(ClientSetup {
        versions: vec![0xff00_0004, 1],
        role: Role::Both,
        params: params.clone(),
    }));
    assert_round_trip(Message::ServerSetup(ServerSetup {
        version: 0xff00_0004,
        role: Role::Publisher,
        params: Params::new(),
    }));
    assert_round_trip(Message::Subscribe(subscribe(FilterType::LatestGroup, None, None)));
    assert_round_trip(Message::Subscribe(subscribe(
        FilterType::AbsoluteRange,
        Some(pair(SubscribeLocation::Absolute(1), SubscribeLocation::Absolute(2))),
        Some(pair(SubscribeLocation::Latest(3), SubscribeLocation::Absent)),
    )));
    assert_round_trip(Message::SubscribeOk(SubscribeOk {
        id: 7,
        expires: 1000,
        latest: Some(Position { group: 5, object: 6 }),
    }));
    assert_round_trip(Message::SubscribeOk(SubscribeOk {
        id: 7,
        expires: 0,
        latest: None,
    }));
    assert_round_trip(Message::SubscribeError(SubscribeError {
        id: 7,
        code: 404,
        reason: "no such track".to_string(),
        track_alias: 9,
    }));
    assert_round_trip(Message::SubscribeDone(SubscribeDone {
        id: 7,
        code: 0,
        reason: String::new(),
        last: Some(Position { group: 10, object: 0 }),
    }));
    assert_round_trip(Message::Unsubscribe(Unsubscribe { id: VARINT_MAX }));
    assert_round_trip(Message::Announce(Announce {
        track_namespace: "quic.video/demo".to_string(),
        auth: Some(vec![0; 70]),
        unknown: params,
    }));
    assert_round_trip(Message::AnnounceOk(AnnounceOk {
        track_namespace: "a".to_string(),
    }));
    assert_round_trip(Message::AnnounceError(AnnounceError {
        track_namespace: "a".to_string(),
        code: u32::MAX,
        reason: "\u{1f6ab}".to_string(),
    }));
    assert_round_trip(Message::Unannounce(Unannounce {
        track_namespace: String::new(),
    }));
    assert_round_trip(Message::GoAway(GoAway {
        url: "https://relay.example/next".to_string(),
    }));
}

#[test]
fn message_discriminants() {
    let cases: Vec<(Message, u64)> = vec![
        (Message::Subscribe(subscribe(FilterType::LatestGroup, None, None)), 0x3),
        (Message::SubscribeOk(SubscribeOk { id: 0, expires: 0, latest: None }), 0x4),
        (
            Message::SubscribeError(SubscribeError {
                id: 0,
                code: 0,
                reason: String::new(),
                track_alias: 0,
            }),
            0x5,
        ),
        (
            Message::Announce(Announce {
                track_namespace: String::new(),
                auth: None,
                unknown: Params::new(),
            }),
            0x6,
        ),
        (Message::AnnounceOk(AnnounceOk { track_namespace: String::new() }), 0x7),
        (
            Message::AnnounceError(AnnounceError {
                track_namespace: String::new(),
                code: 0,
                reason: String::new(),
            }),
            0x8,
        ),
        (Message::Unannounce(Unannounce { track_namespace: String::new() }), 0x9),
        (Message::Unsubscribe(Unsubscribe { id: 0 }), 0xa),
        (
            Message::SubscribeDone(SubscribeDone {
                id: 0,
                code: 0,
                reason: String::new(),
                last: None,
            }),
            0xb,
        ),
        (Message::GoAway(GoAway { url: String::new() }), 0x10),
        (
            Message::ClientSetup(ClientSetup {
                versions: vec![],
                role: Role::Subscriber,
                params: Params::new(),
            }),
            0x40,
        ),
        (
            Message::ServerSetup(ServerSetup {
                version: 0,
                role: Role::Subscriber,
                params: Params::new(),
            }),
            0x41,
        ),
    ];
    for (m, id) in cases {
        assert_eq!(m.id(), id);
        let wire = wire_of(&m);
        if id < 0x40 {
            assert_eq!(wire[0] as u64, id);
        } else {
            assert_eq!(wire[0], 0x40);
            assert_eq!(wire[1] as u64, id);
        }
    }
}

#[test]
fn unsubscribe_exact_bytes() {
    assert_eq!(
        wire_of(&Message::Unsubscribe(Unsubscribe { id: 5 })),
        vec![0x0a, 0x05]
    );
    assert_eq!(
        Message::decode(&[0x0a, 0x05]),
        Ok((Message::Unsubscribe(Unsubscribe { id: 5 }), 2))
    );
}

#[test]
fn message_with_an_unknown_discriminant_is_invalid_message() {
    assert_eq!(
        Message::decode(&[0x3f, 0x00]),
        Err(DecodeError::InvalidMessage(0x3f))
    );
    assert_eq!(
        Message::decode(&[0x00]),
        Err(DecodeError::InvalidMessage(0))
    );
    assert_eq!(Message::decode(&[]), Err(DecodeError::MissingField));
    assert_eq!(Message::decode(&[0x0a]), Err(DecodeError::MissingField));
}

#[test]
fn message_that_cannot_be_encoded_leaves_the_buffer() {
    let mut out = vec![1];
    let m = Message::Subscribe(subscribe(FilterType::AbsoluteStart, None, None));
    assert_eq!(m.check(), Err(EncodeError::MissingField));
    assert_eq!(m.encode(&mut out), Err(EncodeError::MissingField));
    let m = Message::Unsubscribe(Unsubscribe { id: u64::MAX });
    assert_eq!(m.check(), Err(EncodeError::BoundsExceeded));
    assert_eq!(m.encode(&mut out), Err(EncodeError::BoundsExceeded));
    assert_eq!(out, vec![1]);
}

#[test]
fn subscribe_error_code_above_32_bits_is_bounds_exceeded() {
    let wire = [0x05, 0x07, 0xc0, 0, 0, 1, 0, 0, 0, 0, 0x00, 0x09];
    assert_eq!(Message::decode(&wire), Err(DecodeError::BoundsExceeded));
}

#[test]
fn setup_carries_the_role_as_parameter_zero() {
    let m = ClientSetup {
        versions: vec![1, 2],
        role: Role::Subscriber,
        params: Params::new(),
    };
    let mut out = Vec::new();
    m.encode(&mut out).unwrap();
    assert_eq!(out, vec![0x02, 0x01, 0x02, 0x01, 0x00, 0x01, 0x02]);
    assert_eq!(ClientSetup::decode(&out), Ok((m, out.len())));
    let m = ServerSetup {
        version: 2,
        role: Role::Both,
        params: Params::new(),
    };
    let mut out = Vec::new();
    m.encode(&mut out).unwrap();
    assert_eq!(out, vec![0x02, 0x01, 0x00, 0x01, 0x03]);
    assert_eq!(ServerSetup::decode(&out), Ok((m, out.len())));
}

#[test]
fn setup_without_a_role_is_missing_field() {
    assert_eq!(
        ClientSetup::decode(&[0x01, 0x01, 0x00]),
        Err(DecodeError::MissingField)
    );
    assert_eq!(
        ServerSetup::decode(&[0x01, 0x01, 0x05, 0x00]),
        Err(DecodeError::MissingField)
    );
}

#[test]
fn setup_with_a_role_that_is_none_is_invalid_message() {
    assert_eq!(
        ServerSetup::decode(&[0x01, 0x01, 0x00, 0x01, 0x04]),
        Err(DecodeError::InvalidMessage(4))
    );
    assert_eq!(
        ServerSetup::decode(&[0x01, 0x01, 0x00, 0x01, 0x00]),
        Err(DecodeError::InvalidMessage(0))
    );
    assert_eq!(
        ServerSetup::decode(&[0x01, 0x01, 0x00, 0x02, 0x01, 0x01]),
        Err(DecodeError::InvalidMessage(1))
    );
    assert_eq!(
        ServerSetup::decode(&[0x01, 0x01, 0x00, 0x00]),
        Err(DecodeError::MissingField)
    );
    assert_eq!(Role::from_value(&[0x40, 0x02]), Ok(Role::Subscriber));
    assert_eq!(Role::Both.value(), vec![0x03]);
}
