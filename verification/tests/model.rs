use moq::error::Closed;
use moq::model::broadcast::Broadcast;
use moq::model::broadcast::BroadcastReader;
use moq::model::broadcast::BroadcastTrackBuilder;
use moq::model::broadcast::BroadcastWriter;
use moq::model::broadcast::Subscribed;
use moq::model::broadcast::UnknownReader;
use moq::model::frame::Frame;
use moq::model::group::GroupReader;
use moq::model::group::Poll;
use moq::model::hub::Hub;
use moq::model::track::Track;
use moq::model::track::TrackReader;
use moq::model::track::TrackWriter;

fn frame(poll: Poll<Result<Option<Frame>, Closed>>) -> Vec<u8> {
    match poll {
        Poll::Ready(Ok(Some(f))) => f.into_bytes(),
        other => panic!("no frame: {:?}", other),
    }
}

fn group(poll: Poll<Result<Option<GroupReader>, Closed>>) -> GroupReader {
    match poll {
        Poll::Ready(Ok(Some(g))) => g,
        other => panic!("no group: {:?}", other),
    }
}

fn track_of(found: Result<Subscribed, Closed>) -> TrackReader {
    match found {
        Ok(Subscribed::Track(t)) => t,
        other => panic!("no track: {:?}", other),
    }
}

fn pending<T: std::fmt::Debug>(poll: Poll<T>) -> bool {
    matches!(poll, Poll::Pending)
}

fn setup(hub: &mut Hub) -> (BroadcastWriter, BroadcastReader, TrackWriter) {
    let (writer, reader) = Broadcast::new("test").produce(hub);
    let track = writer.create("video", 3).build(hub).unwrap();
    (writer, reader, track)
}

#[test]
fn frame_holds_its_bytes() {
    let f = Frame::new(vec![1, 2, 3]);
    assert_eq!(f.len(), 3);
    assert_eq!(f.as_slice(), &[1, 2, 3]);
    assert_eq!(f.clone(), f);
    assert_eq!(f.into_bytes(), vec![1, 2, 3]);
    assert_eq!(Frame::new(vec![]).len(), 0);
}

#[test]
fn echo_one_group_of_two_frames() {
    let mut hub = Hub::new();
    let (_writer, reader, track) = setup(&mut hub);
    let group_writer = track.append_group(&mut hub, 1).unwrap();
    assert_eq!(group_writer.sequence(), 1);
    assert_eq!(group_writer.append_frame(&mut hub, vec![0x01]), Ok(()));
    assert_eq!(group_writer.append_frame(&mut hub, vec![0x02]), Ok(()));
    assert_eq!(group_writer.finish(&mut hub), Ok(()));

    let wanted = Track::new("test", "video", 0).build();
    let mut track_reader = track_of(reader.subscribe(&hub, &wanted));
    assert_eq!(track_reader.info().name, "video");
    assert_eq!(track_reader.info().broadcast, "test");
    assert_eq!(track_reader.info().priority, 3);
    let mut group_reader = group(track_reader.next_group(&hub));
    assert_eq!(group_reader.sequence(), 1);
    assert_eq!(frame(group_reader.next_frame(&hub)), vec![0x01]);
    assert_eq!(frame(group_reader.next_frame(&hub)), vec![0x02]);
    assert_eq!(group_reader.next_frame(&hub), Poll::Ready(Ok(None)));
    assert_eq!(group_reader.next_frame(&hub), Poll::Ready(Ok(None)));
    assert!(pending(track_reader.next_group(&hub)));
}

#[test]
fn consumers_attached_before_and_after_see_the_same_frames() {
    let mut hub = Hub::new();
    let (_writer, _reader, track) = setup(&mut hub);
    let group_writer = track.append_group(&mut hub, 0).unwrap();
    let mut early = group_writer.subscribe();
    assert!(pending(early.next_frame(&hub)));
    let mut seen_early = Vec::new();
    let frames: Vec<Vec<u8>> = (0..20u8).map(|i| vec![i; i as usize]).collect();
    for (i, f) in frames.iter().enumerate() {
        group_writer.append_frame(&mut hub, f.clone()).unwrap();
        if i % 3 == 0 {
            while let Poll::Ready(Ok(Some(got))) = early.next_frame(&hub) {
                seen_early.push(got.into_bytes());
            }
            let mut middle = group_writer.subscribe();
            for expected in frames.iter().take(i + 1) {
                assert_eq!(&frame(middle.next_frame(&hub)), expected);
            }
            assert!(pending(middle.next_frame(&hub)));
        }
    }
    while let Poll::Ready(Ok(Some(got))) = early.next_frame(&hub) {
        seen_early.push(got.into_bytes());
    }
    assert_eq!(seen_early, frames);
    let mut late = group_writer.subscribe();
    let mut clone = late.clone();
    for expected in frames.iter() {
        assert_eq!(&frame(late.next_frame(&hub)), expected);
    }
    assert_eq!(&frame(clone.next_frame(&hub)), &frames[0]);
}

#[test]
fn aborted_group_hands_out_its_frames_and_then_the_code() {
    let mut hub = Hub::new();
    let (_writer, _reader, track) = setup(&mut hub);
    let group_writer = track.append_group(&mut hub, 4).unwrap();
    group_writer.append_frame(&mut hub, vec![9]).unwrap();
    assert_eq!(group_writer.abort(&mut hub, 42), Ok(()));
    let mut r = group_writer.subscribe();
    assert_eq!(frame(r.next_frame(&hub)), vec![9]);
    assert_eq!(r.next_frame(&hub), Poll::Ready(Err(Closed::App(42))));
    assert_eq!(r.next_frame(&hub), Poll::Ready(Err(Closed::App(42))));
}

#[test]
fn closed_group_takes_no_more_frames_and_keeps_its_first_closure() {
    let mut hub = Hub::new();
    let (_writer, _reader, track) = setup(&mut hub);
    let g = track.append_group(&mut hub, 4).unwrap();
    g.append_frame(&mut hub, vec![1]).unwrap();
    assert_eq!(g.finish(&mut hub), Ok(()));
    assert_eq!(g.append_frame(&mut hub, vec![2]), Err(Closed::Done));
    assert_eq!(g.abort(&mut hub, 5), Err(Closed::Done));
    assert_eq!(g.finish(&mut hub), Err(Closed::Done));
    let mut r = g.subscribe();
    assert_eq!(frame(r.next_frame(&hub)), vec![1]);
    assert_eq!(r.next_frame(&hub), Poll::Ready(Ok(None)));

    let h = track.append_group(&mut hub, 5).unwrap();
    assert_eq!(h.abort(&mut hub, 7), Ok(()));
    assert_eq!(h.finish(&mut hub), Err(Closed::App(7)));
    assert_eq!(h.abort(&mut hub, 8), Err(Closed::App(7)));
    assert_eq!(h.append_frame(&mut hub, vec![]), Err(Closed::App(7)));
}

#[test]
fn group_sequences_must_rise() {
    let mut hub = Hub::new();
    let (_writer, _reader, track) = setup(&mut hub);
    assert!(track.append_group(&mut hub, 5).is_ok());
    assert_eq!(
        track.append_group(&mut hub, 5).err(),
        Some(Closed::Duplicate)
    );
    assert_eq!(
        track.append_group(&mut hub, 4).err(),
        Some(Closed::Duplicate)
    );
    assert_eq!(
        track.append_group(&mut hub, 0).err(),
        Some(Closed::Duplicate)
    );
    assert!(track.append_group(&mut hub, 6).is_ok());
    assert!(track.append_group(&mut hub, u64::MAX).is_ok());
    assert_eq!(
        track.append_group(&mut hub, u64::MAX).err(),
        Some(Closed::Duplicate)
    );
    let mut reader = track.subscribe();
    let mut seen = Vec::new();
    while let Poll::Ready(Ok(Some(g))) = reader.next_group(&hub) {
        seen.push(g.sequence());
    }
    assert_eq!(seen, vec![5, 6, u64::MAX]);
}

#[test]
fn first_group_may_have_any_sequence() {
    let mut hub = Hub::new();
    let (_writer, _reader, track) = setup(&mut hub);
    assert!(track.append_group(&mut hub, 0).is_ok());
    let (_w2, _r2, other) = setup(&mut hub);
    assert!(other.append_group(&mut hub, 1000).is_ok());
}

#[test]
fn latest_group_skips_but_never_goes_back() {
    let mut hub = Hub::new();
    let (_writer, _reader, track) = setup(&mut hub);
    let mut reader = track.subscribe();
    assert!(pending(reader.latest_group(&hub)));
    let mut seen = Vec::new();
    for seq in 1..=10u64 {
        track.append_group(&mut hub, seq).unwrap();
        if seq == 3 || seq == 4 || seq == 9 {
            seen.push(group(reader.latest_group(&hub)).sequence());
            assert!(pending(reader.latest_group(&hub)));
        }
    }
    seen.push(group(reader.latest_group(&hub)).sequence());
    assert_eq!(seen, vec![3, 4, 9, 10]);
    assert!(pending(reader.latest_group(&hub)));
    assert!(pending(reader.next_group(&hub)));
    let mut all = track.subscribe();
    let mut previous = 0;
    for _ in 0..10 {
        let seq = group(all.next_group(&hub)).sequence();
        assert!(seq > previous);
        previous = seq;
    }
    assert_eq!(previous, 10);
}

#[test]
fn next_and_latest_mix() {
    let mut hub = Hub::new();
    let (_writer, _reader, track) = setup(&mut hub);
    for seq in [2u64, 4, 6, 8] {
        track.append_group(&mut hub, seq).unwrap();
    }
    let mut reader = track.subscribe();
    assert_eq!(group(reader.next_group(&hub)).sequence(), 2);
    assert_eq!(group(reader.latest_group(&hub)).sequence(), 8);
    track.append_group(&mut hub, 10).unwrap();
    track.append_group(&mut hub, 12).unwrap();
    assert_eq!(group(reader.next_group(&hub)).sequence(), 10);
    assert_eq!(group(reader.next_group(&hub)).sequence(), 12);
    assert!(pending(reader.next_group(&hub)));
}

#[test]
fn finished_track_ends_cleanly_after_its_groups() {
    let mut hub = Hub::new();
    let (_writer, _reader, track) = setup(&mut hub);
    track.append_group(&mut hub, 1).unwrap();
    let mut reader = track.subscribe();
    assert_eq!(reader.closed(&hub), Poll::Pending);
    let other = track.subscribe();
    track.finish(&mut hub);
    assert_eq!(reader.closed(&hub), Poll::Ready(Closed::Done));
    assert_eq!(group(reader.next_group(&hub)).sequence(), 1);
    assert!(matches!(reader.next_group(&hub), Poll::Ready(Ok(None))));
    assert!(matches!(reader.latest_group(&hub), Poll::Ready(Ok(None))));
    assert_eq!(other.closed(&hub), Poll::Ready(Closed::Done));
}

#[test]
fn closed_track_takes_no_more_groups() {
    let mut hub = Hub::new();
    let (_writer, _reader, track) = setup(&mut hub);
    assert_eq!(track.close(&mut hub, 9), Ok(()));
    assert_eq!(track.close(&mut hub, 10), Err(Closed::App(9)));
    assert_eq!(track.append_group(&mut hub, 1).err(), Some(Closed::App(9)));
    let mut reader = track.subscribe();
    assert!(matches!(
        reader.next_group(&hub),
        Poll::Ready(Err(Closed::App(9)))
    ));
}

#[test]
fn creating_a_track_again_replaces_the_old_one() {
    let mut hub = Hub::new();
    let (writer, reader, old) = setup(&mut hub);
    old.append_group(&mut hub, 1).unwrap();
    let mut old_reader = old.subscribe();
    let new = writer.create("video", 0).build(&mut hub).unwrap();
    assert_ne!(new.id(), old.id());
    assert_eq!(old.append_group(&mut hub, 2).err(), Some(Closed::Replaced));
    assert_eq!(group(old_reader.next_group(&hub)).sequence(), 1);
    assert!(matches!(
        old_reader.next_group(&hub),
        Poll::Ready(Err(Closed::Replaced))
    ));
    let wanted = Track::new("test", "video", 0).build();
    let mut current = track_of(reader.subscribe(&hub, &wanted));
    assert_eq!(current.id(), new.id());
    assert!(pending(current.next_group(&hub)));
    new.append_group(&mut hub, 1).unwrap();
    assert_eq!(group(current.next_group(&hub)).sequence(), 1);
}

#[test]
fn replacing_a_closed_track_keeps_its_closure() {
    let mut hub = Hub::new();
    let (writer, _reader, old) = setup(&mut hub);
    old.close(&mut hub, 3).unwrap();
    let _new = writer.insert(&mut hub, Track::new("test", "video", 0).build()).unwrap();
    assert_eq!(old.subscribe().closed(&hub), Poll::Ready(Closed::App(3)));
}

#[test]
fn unknown_track_without_a_fallback() {
    let mut hub = Hub::new();
    let (_writer, reader) = Broadcast::new("live").produce(&mut hub);
    let wanted = Track::new("live", "absent", 0).build();
    assert!(matches!(
        reader.subscribe(&hub, &wanted),
        Err(Closed::UnknownTrack)
    ));
}

#[test]
fn unknown_track_with_a_fallback() {
    let mut hub = Hub::new();
    let (writer, reader, _track) = setup(&mut hub);
    assert_eq!(writer.unknown(&mut hub, UnknownReader { id: 7 }), Ok(()));
    let wanted = Track::new("test", "absent", 0).build();
    assert!(matches!(
        reader.subscribe(&hub, &wanted),
        Ok(Subscribed::Unknown(UnknownReader { id: 7 }))
    ));
    let known = Track::new("test", "video", 0).build();
    assert!(matches!(
        reader.subscribe(&hub, &known),
        Ok(Subscribed::Track(_))
    ));
    assert_eq!(writer.unknown(&mut hub, UnknownReader { id: 8 }), Ok(()));
    assert!(matches!(
        reader.clone().subscribe(&hub, &wanted),
        Ok(Subscribed::Unknown(UnknownReader { id: 8 }))
    ));
}

#[test]
fn closed_broadcast_refuses_changes_with_cancel() {
    let mut hub = Hub::new();
    let (writer, reader, _track) = setup(&mut hub);
    assert_eq!(writer.closed(&hub), Poll::Pending);
    assert_eq!(reader.closed(&hub), Poll::Pending);
    assert_eq!(writer.close(&mut hub, 5), Ok(()));
    assert_eq!(writer.close(&mut hub, 6), Err(Closed::App(5)));
    assert_eq!(writer.closed(&hub), Poll::Ready(Closed::App(5)));
    assert_eq!(reader.closed(&hub), Poll::Ready(Closed::App(5)));
    assert_eq!(
        writer.unknown(&mut hub, UnknownReader { id: 1 }),
        Err(Closed::Cancel)
    );
    assert_eq!(
        writer.create("audio", 0).build(&mut hub).err(),
        Some(Closed::Cancel)
    );
    assert_eq!(
        writer.insert(&mut hub, Track::new("test", "audio", 0).build()).err(),
        Some(Closed::Cancel)
    );
    assert!(writer.remove(&mut hub, "video").is_none());
    let known = Track::new("test", "video", 0).build();
    assert!(matches!(
        reader.subscribe(&hub, &known),
        Ok(Subscribed::Track(_))
    ));
}

#[test]
fn dropping_the_producer_resolves_closed_with_done() {
    let mut hub = Hub::new();
    let (writer, reader, track) = setup(&mut hub);
    let second = reader.clone();
    let third = writer.subscribe();
    assert_eq!(reader.closed(&hub), Poll::Pending);
    assert_eq!(second.closed(&hub), Poll::Pending);
    writer.finish(&mut hub);
    for r in [&reader, &second, &third] {
        assert_eq!(r.closed(&hub), Poll::Ready(Closed::Done));
    }
    track.append_group(&mut hub, 1).unwrap();
    let (other, _other_reader) = Broadcast::new("other").produce(&mut hub);
    other.close(&mut hub, 1).unwrap();
    for r in [&reader, &second, &third] {
        assert_eq!(r.closed(&hub), Poll::Ready(Closed::Done));
    }
}

#[test]
fn remove_takes_the_track_out_but_leaves_it_alive() {
    let mut hub = Hub::new();
    let (writer, reader, track) = setup(&mut hub);
    track.append_group(&mut hub, 1).unwrap();
    let mut removed = writer.remove(&mut hub, "video").unwrap();
    assert_eq!(removed.id(), track.id());
    assert!(writer.remove(&mut hub, "video").is_none());
    assert!(writer.remove(&mut hub, "absent").is_none());
    let wanted = Track::new("test", "video", 0).build();
    assert!(matches!(
        reader.subscribe(&hub, &wanted),
        Err(Closed::UnknownTrack)
    ));
    assert_eq!(group(removed.next_group(&hub)).sequence(), 1);
    track.append_group(&mut hub, 2).unwrap();
    assert_eq!(group(removed.next_group(&hub)).sequence(), 2);
}

#[test]
fn builder_and_handles_carry_the_names() {
    let mut hub = Hub::new();
    let broadcast = Broadcast::new("room");
    assert_eq!(broadcast.name, "room");
    let (writer, reader) = broadcast.produce(&mut hub);
    assert_eq!(writer.info().name, "room");
    assert_eq!(reader.info().name, "room");
    assert_eq!(writer.id(), reader.id());
    let builder = BroadcastTrackBuilder::new(&writer, "audio", 9);
    assert_eq!(builder.track.track.broadcast, "room");
    assert_eq!(builder.track.track.name, "audio");
    assert_eq!(builder.track.track.priority, 9);
    let track = builder.build(&mut hub).unwrap();
    assert_eq!(track.info().name, "audio");
    let t = Track::new("b", "n", 1).priority(5).build();
    assert_eq!(t.priority, 5);
    assert_eq!(t.clone(), t);
    let wanted = Track::new("room", "audio", 0).build();
    assert!(matches!(
        reader.subscribe(&hub, &wanted),
        Ok(Subscribed::Track(_))
    ));
}

#[test]
fn handles_of_another_hub_are_told_cancel() {
    let mut hub = Hub::new();
    let (writer, reader, track) = setup(&mut hub);
    let g = track.append_group(&mut hub, 1).unwrap();
    let mut other = Hub::new();
    assert_eq!(g.append_frame(&mut other, vec![1]), Err(Closed::Cancel));
    assert_eq!(g.finish(&mut other), Err(Closed::Cancel));
    assert_eq!(track.append_group(&mut other, 2).err(), Some(Closed::Cancel));
    assert_eq!(track.close(&mut other, 2), Err(Closed::Cancel));
    assert_eq!(writer.close(&mut other, 2), Err(Closed::Cancel));
    assert_eq!(
        writer.create("a", 0).build(&mut other).err(),
        Some(Closed::Cancel)
    );
    assert_eq!(reader.closed(&other), Poll::Ready(Closed::Cancel));
    let wanted = Track::new("test", "video", 0).build();
    assert!(matches!(reader.subscribe(&other, &wanted), Err(Closed::Cancel)));
    let mut gr = g.subscribe();
    assert_eq!(gr.next_frame(&other), Poll::Ready(Err(Closed::Cancel)));
    let mut tr = track.subscribe();
    assert!(matches!(
        tr.next_group(&other),
        Poll::Ready(Err(Closed::Cancel))
    ));
    assert!(matches!(
        tr.latest_group(&other),
        Poll::Ready(Err(Closed::Cancel))
    ));
}

#[test]
fn two_broadcasts_of_one_name_are_two_cells() {
    let mut hub = Hub::new();
    let (w1, r1) = Broadcast::new("room").produce(&mut hub);
    let (w2, r2) = Broadcast::new("room").produce(&mut hub);
    assert_ne!(r1.id(), r2.id());
    w1.create("video", 0).build(&mut hub).unwrap();
    let wanted = Track::new("room", "video", 0).build();
    assert!(matches!(r1.subscribe(&hub, &wanted), Ok(Subscribed::Track(_))));
    assert!(matches!(r2.subscribe(&hub, &wanted), Err(Closed::UnknownTrack)));
    w2.finish(&mut hub);
    assert_eq!(r1.closed(&hub), Poll::Pending);
    assert_eq!(r2.closed(&hub), Poll::Ready(Closed::Done));
}

#[test]
fn lag_counts_what_a_consumer_has_not_seen() {
    let mut hub = Hub::new();
    let (_writer, _reader, track) = setup(&mut hub);
    let mut reader = track.subscribe();
    assert_eq!(reader.lag(&hub), 0);
    for seq in 1..=5u64 {
        track.append_group(&mut hub, seq).unwrap();
    }
    assert_eq!(reader.lag(&hub), 5);
    let mut first = group(reader.next_group(&hub));
    assert_eq!(reader.lag(&hub), 4);
    group(reader.latest_group(&hub));
    assert_eq!(reader.lag(&hub), 0);
    assert_eq!(reader.lag(&Hub::new()), 0);

    assert_eq!(first.lag(&hub), 0);
    let writer = track.append_group(&mut hub, 6).unwrap();
    let mut frames = writer.subscribe();
    writer.append_frame(&mut hub, vec![1]).unwrap();
    writer.append_frame(&mut hub, vec![2]).unwrap();
    assert_eq!(frames.lag(&hub), 2);
    frame(frames.next_frame(&hub));
    assert_eq!(frames.lag(&hub), 1);
    assert!(pending(first.next_frame(&hub)));
}
