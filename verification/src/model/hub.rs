//! The hub: the cells that producers and consumers share.
//!
//! A cell is never removed and never moves, so the number that names it
//! stays good for as long as the hub lives. Every change is stated as a
//! function on [`HubView`], the plain-value picture of the hub.
use vstd::prelude::*;

use crate::error::Closed;
use crate::model::broadcast::BroadcastState;
use crate::model::broadcast::BroadcastView;
use crate::model::broadcast::Subscribed;
use crate::model::broadcast::UnknownReader;
use crate::model::frame::Frame;
use crate::model::group::GroupReader;
use crate::model::group::GroupState;
use crate::model::group::GroupView;
use crate::model::group::GroupWriter;
use crate::model::group::Poll;
use crate::model::track::Track;
use crate::model::track::TrackInfo;
use crate::model::track::TrackReader;
use crate::model::track::TrackState;
use crate::model::track::TrackView;
use crate::model::track::TrackWriter;

verus! {

/// The cells of broadcasts, tracks and groups.
pub struct Hub {
    broadcasts: Vec<BroadcastState>,
    tracks: Vec<TrackState>,
    groups: Vec<GroupState>,
}

/// What a hub holds, as plain values.
pub struct HubView {
    pub broadcasts: Seq<BroadcastView>,
    pub tracks: Seq<TrackView>,
    pub groups: Seq<GroupView>,
}

impl HubView {
    /// The hub without cells.
    pub open spec fn empty() -> HubView {
        HubView { broadcasts: Seq::empty(), tracks: Seq::empty(), groups: Seq::empty() }
    }

    /// Every group that the track cell `t` lists has a cell, and that cell
    /// carries the listed sequence number; the numbers rise strictly.
    pub open spec fn track_linked(self, t: int) -> bool {
        &&& self.tracks[t].increasing()
        &&& forall|i: int|
            0 <= i < self.tracks[t].groups.len() ==> (#[trigger] self.tracks[t].groups[i]).1
                < self.groups.len() && self.groups[self.tracks[t].groups[i].1 as int].sequence
                == self.tracks[t].groups[i].0
    }

    /// Every track that the broadcast cell `b` lists has a cell, and that
    /// cell carries the listed name.
    pub open spec fn broadcast_linked(self, b: int) -> bool {
        forall|k: Seq<char>| #[trigger]
            self.broadcasts[b].tracks.contains_key(k) ==> self.broadcasts[b].tracks[k]
                < self.tracks.len() && self.tracks[self.broadcasts[b].tracks[k] as int].info.name
                == k
    }

    /// The cells refer to one another consistently.
    pub open spec fn wf(self) -> bool {
        &&& forall|t: int| 0 <= t < self.tracks.len() ==> #[trigger] self.track_linked(t)
        &&& forall|b: int| 0 <= b < self.broadcasts.len() ==> #[trigger] self.broadcast_linked(b)
    }

    /// Whether the group cell `g` is open: its closure once it is closed,
    /// `Cancel` where the hub has no such cell.
    pub open spec fn group_status(self, g: nat) -> Result<(), Closed> {
        if g < self.groups.len() {
            self.groups[g as int].closed
        } else {
            Err(Closed::Cancel)
        }
    }

    /// Whether the track cell `t` is open: its closure once it is closed,
    /// `Cancel` where the hub has no such cell.
    pub open spec fn track_status(self, t: nat) -> Result<(), Closed> {
        if t < self.tracks.len() {
            self.tracks[t as int].closed
        } else {
            Err(Closed::Cancel)
        }
    }

    /// Whether the broadcast cell `b` is open: its closure once it is
    /// closed, `Cancel` where the hub has no such cell.
    pub open spec fn broadcast_status(self, b: nat) -> Result<(), Closed> {
        if b < self.broadcasts.len() {
            self.broadcasts[b as int].closed
        } else {
            Err(Closed::Cancel)
        }
    }

    /// Whether the producer of the broadcast cell `b` may still change it:
    /// `Cancel` once it is closed or where the hub has no such cell.
    pub open spec fn broadcast_writable(self, b: nat) -> Result<(), Closed> {
        if b < self.broadcasts.len() {
            self.broadcasts[b as int].writable()
        } else {
            Err(Closed::Cancel)
        }
    }

    /// Whether a group of the given sequence number may be appended to the
    /// track cell `t`; `Cancel` where the hub has no such cell.
    pub open spec fn track_admits(self, t: nat, sequence: u64) -> Result<(), Closed> {
        if t < self.tracks.len() {
            self.tracks[t as int].admits(sequence)
        } else {
            Err(Closed::Cancel)
        }
    }

    /// Number of groups of the track cell `t`.
    pub open spec fn group_count(self, t: nat) -> nat {
        if t < self.tracks.len() {
            self.tracks[t as int].groups.len()
        } else {
            0
        }
    }

    /// Number of frames of the group cell `g`.
    pub open spec fn frame_count(self, g: nat) -> nat {
        if g < self.groups.len() {
            self.groups[g as int].frames.len()
        } else {
            0
        }
    }

    /// How far a consumer that has passed `cursor` of `count` items is
    /// behind the newest.
    pub open spec fn behind(count: nat, cursor: nat) -> nat {
        if cursor < count {
            (count - cursor) as nat
        } else {
            0
        }
    }

    /// The hub after `bytes` was offered to the group cell `g`.
    pub open spec fn append_frame(self, g: nat, bytes: Seq<u8>) -> HubView {
        if g < self.groups.len() {
            HubView {
                groups: self.groups.update(g as int, self.groups[g as int].append(bytes)),
                ..self
            }
        } else {
            self
        }
    }

    /// The hub after the group cell `g` was closed with `reason`.
    pub open spec fn close_group(self, g: nat, reason: Closed) -> HubView {
        if g < self.groups.len() {
            HubView {
                groups: self.groups.update(g as int, self.groups[g as int].close(reason)),
                ..self
            }
        } else {
            self
        }
    }

    /// The hub after a group of the given sequence number was offered to
    /// the track cell `t`: where the track admits it, a fresh group cell is
    /// added and listed last in the track.
    pub open spec fn append_group(self, t: nat, sequence: u64) -> HubView {
        if self.track_admits(t, sequence) is Ok {
            HubView {
                groups: self.groups.push(GroupView::start(sequence)),
                tracks: self.tracks.update(
                    t as int,
                    self.tracks[t as int].append(sequence, self.groups.len()),
                ),
                ..self
            }
        } else {
            self
        }
    }

    /// The hub after the track cell `t` was closed with `reason`.
    pub open spec fn close_track(self, t: nat, reason: Closed) -> HubView {
        if t < self.tracks.len() {
            HubView {
                tracks: self.tracks.update(t as int, self.tracks[t as int].close(reason)),
                ..self
            }
        } else {
            self
        }
    }

    /// The hub with one more broadcast cell, fresh.
    pub open spec fn produce(self) -> HubView {
        HubView { broadcasts: self.broadcasts.push(BroadcastView::start()), ..self }
    }

    /// The track cells after a fresh one for `info` was added and the cell
    /// that the broadcast cell `b` listed under that name, if any, was
    /// closed with `Replaced`.
    pub open spec fn tracks_after_insert(self, b: nat, info: TrackInfo) -> Seq<TrackView> {
        let grown = self.tracks.push(TrackView::start(info));
        let listed = self.broadcasts[b as int].tracks;
        if listed.contains_key(info.name) {
            let previous = listed[info.name] as int;
            grown.update(previous, grown[previous].close(Closed::Replaced))
        } else {
            grown
        }
    }

    /// The hub after a track with `info` was offered to the broadcast cell
    /// `b`: where the broadcast is writable, a fresh track cell is added and
    /// listed under its name, in place of any track listed there before.
    pub open spec fn insert_track(self, b: nat, info: TrackInfo) -> HubView {
        if self.broadcast_writable(b) is Ok {
            HubView {
                tracks: self.tracks_after_insert(b, info),
                broadcasts: self.broadcasts.update(
                    b as int,
                    BroadcastView {
                        tracks: self.broadcasts[b as int].tracks.insert(
                            info.name,
                            self.tracks.len(),
                        ),
                        ..self.broadcasts[b as int]
                    },
                ),
                ..self
            }
        } else {
            self
        }
    }

    /// The track cell that taking `name` out of the broadcast cell `b`
    /// would hand back: none where the broadcast is not writable or lists
    /// no such track.
    pub open spec fn removable(self, b: nat, name: Seq<char>) -> Option<nat> {
        if self.broadcast_writable(b) is Ok && self.broadcasts[b as int].tracks.contains_key(name) {
            Some(self.broadcasts[b as int].tracks[name])
        } else {
            None
        }
    }

    /// The hub after `name` was taken out of the broadcast cell `b`.
    pub open spec fn remove_track(self, b: nat, name: Seq<char>) -> HubView {
        if self.removable(b, name) is Some {
            HubView {
                broadcasts: self.broadcasts.update(
                    b as int,
                    BroadcastView {
                        tracks: self.broadcasts[b as int].tracks.remove(name),
                        ..self.broadcasts[b as int]
                    },
                ),
                ..self
            }
        } else {
            self
        }
    }

    /// The hub after `reader` was registered as the fallback of the
    /// broadcast cell `b`.
    pub open spec fn set_unknown(self, b: nat, reader: UnknownReader) -> HubView {
        if self.broadcast_writable(b) is Ok {
            HubView {
                broadcasts: self.broadcasts.update(
                    b as int,
                    BroadcastView { unknown: Some(reader), ..self.broadcasts[b as int] },
                ),
                ..self
            }
        } else {
            self
        }
    }

    /// The hub after the broadcast cell `b` was closed with `reason`.
    pub open spec fn close_broadcast(self, b: nat, reason: Closed) -> HubView {
        if b < self.broadcasts.len() {
            HubView {
                broadcasts: self.broadcasts.update(
                    b as int,
                    self.broadcasts[b as int].close(reason),
                ),
                ..self
            }
        } else {
            self
        }
    }

    /// What a consumer of the group cell `g` that has taken `index` frames
    /// is told next; `Cancel` where the hub has no such cell.
    pub open spec fn poll_group(self, g: nat, index: nat) -> Poll<Result<Option<Seq<u8>>, Closed>> {
        if g < self.groups.len() {
            self.groups[g as int].poll(index)
        } else {
            Poll::Ready(Err(Closed::Cancel))
        }
    }

    /// What a consumer of the track cell `t` that has passed `cursor`
    /// groups is told when it asks for the next one; `Cancel` where the hub
    /// has no such cell.
    pub open spec fn poll_next_group(self, t: nat, cursor: nat) -> Poll<
        Result<Option<(u64, nat)>, Closed>,
    > {
        if t < self.tracks.len() {
            self.tracks[t as int].poll_next(cursor)
        } else {
            Poll::Ready(Err(Closed::Cancel))
        }
    }

    /// What a consumer of the track cell `t` that has passed `cursor`
    /// groups is told when it asks for the newest one; `Cancel` where the
    /// hub has no such cell.
    pub open spec fn poll_latest_group(self, t: nat, cursor: nat) -> Poll<
        Result<Option<(u64, nat)>, Closed>,
    > {
        if t < self.tracks.len() {
            self.tracks[t as int].poll_latest(cursor)
        } else {
            Poll::Ready(Err(Closed::Cancel))
        }
    }

    /// What asking the broadcast cell `b` for the track `name` gives: the
    /// track's cell where the broadcast lists it; else the fallback where
    /// one is registered; else `UnknownTrack`. `Cancel` where the hub has no
    /// such broadcast cell.
    pub open spec fn lookup(self, b: nat, name: Seq<char>) -> Result<
        Result<nat, UnknownReader>,
        Closed,
    > {
        if b >= self.broadcasts.len() {
            Err(Closed::Cancel)
        } else if self.broadcasts[b as int].tracks.contains_key(name) {
            Ok(Ok(self.broadcasts[b as int].tracks[name]))
        } else {
            match self.broadcasts[b as int].unknown {
                Some(u) => Ok(Err(u)),
                None => Err(Closed::UnknownTrack),
            }
        }
    }
}

impl View for Hub {
    type V = HubView;

    closed spec fn view(&self) -> HubView {
        HubView {
            broadcasts: Seq::new(self.broadcasts@.len(), |i: int| self.broadcasts@[i]@),
            tracks: Seq::new(self.tracks@.len(), |i: int| self.tracks@[i]@),
            groups: Seq::new(self.groups@.len(), |i: int| self.groups@[i]@),
        }
    }
}

impl Hub {
    /// The cells refer to one another consistently.
    pub closed spec fn wf(&self) -> bool {
        self@.wf()
    }

    /// What `wf` says of the plain-value picture.
    pub proof fn lemma_wf(&self)
        requires
            self.wf(),
        ensures
            self@.wf(),
    {
    }

    /// The hub without cells.
    pub fn new() -> (hub: Hub)
        ensures
            hub.wf(),
            hub@ == HubView::empty(),
    {
        let hub = Hub { broadcasts: Vec::new(), tracks: Vec::new(), groups: Vec::new() };
        assert(hub@.broadcasts =~= Seq::<BroadcastView>::empty());
        assert(hub@.tracks =~= Seq::<TrackView>::empty());
        assert(hub@.groups =~= Seq::<GroupView>::empty());
        hub
    }

    /// Offers `frame` to the group cell `g`.
    pub(crate) fn append_frame(&mut self, g: usize, frame: Frame) -> (r: Result<(), Closed>)
        requires
            old(self).wf(),
        ensures
            final(self).wf(),
            final(self)@ == old(self)@.append_frame(g as nat, frame@),
            r == old(self)@.group_status(g as nat),
    {
        if g >= self.groups.len() {
            return Err(Closed::Cancel);
        }
        let r = self.groups[g].append_frame(frame);
        proof {
            let a = old(self)@;
            let z = self@;
            assert(z.groups =~= a.groups.update(g as int, a.groups[g as int].append(frame@)));
            assert(z.tracks =~= a.tracks);
            assert(z.broadcasts =~= a.broadcasts);
            lemma_groups_changed(a, z);
        }
        r
    }

    /// Closes the group cell `g` with `reason`.
    pub(crate) fn close_group(&mut self, g: usize, reason: Closed) -> (r: Result<(), Closed>)
        requires
            old(self).wf(),
        ensures
            final(self).wf(),
            final(self)@ == old(self)@.close_group(g as nat, reason),
            r == old(self)@.group_status(g as nat),
    {
        if g >= self.groups.len() {
            return Err(Closed::Cancel);
        }
        let r = self.groups[g].close(reason);
        proof {
            let a = old(self)@;
            let z = self@;
            assert(z.groups =~= a.groups.update(g as int, a.groups[g as int].close(reason)));
            assert(z.tracks =~= a.tracks);
            assert(z.broadcasts =~= a.broadcasts);
            lemma_groups_changed(a, z);
        }
        r
    }

    /// What a consumer of the group cell `g` that has taken `index` frames
    /// is told next.
    pub fn poll_group(&self, g: usize, index: usize) -> (r: Poll<Result<Option<Frame>, Closed>>)
        ensures
            match r {
                Poll::Ready(Ok(Some(f))) => self@.poll_group(g as nat, index as nat) == Poll::Ready(
                    Ok::<Option<Seq<u8>>, Closed>(Some(f@)),
                ) && index < usize::MAX,
                Poll::Ready(Ok(None)) => self@.poll_group(g as nat, index as nat) == Poll::Ready(
                    Ok::<Option<Seq<u8>>, Closed>(None),
                ),
                Poll::Ready(Err(e)) => self@.poll_group(g as nat, index as nat) == Poll::Ready(
                    Err::<Option<Seq<u8>>, Closed>(e),
                ),
                Poll::Pending => self@.poll_group(g as nat, index as nat) == Poll::<
                    Result<Option<Seq<u8>>, Closed>,
                >::Pending,
            },
    {
        if g >= self.groups.len() {
            return Poll::Ready(Err(Closed::Cancel));
        }
        self.groups[g].poll(index)
    }

    /// Offers a group of the given sequence number to the track cell `t`.
    pub(crate) fn append_group(&mut self, t: usize, sequence: u64) -> (r: Result<GroupWriter, Closed>)
        requires
            old(self).wf(),
        ensures
            final(self).wf(),
            final(self)@ == old(self)@.append_group(t as nat, sequence),
            match r {
                Ok(w) => old(self)@.track_admits(t as nat, sequence) is Ok && w.cell() == old(
                    self,
                )@.groups.len() && w.spec_sequence() == sequence,
                Err(e) => old(self)@.track_admits(t as nat, sequence) == Err::<(), Closed>(e),
            },
    {
        if t >= self.tracks.len() {
            return Err(Closed::Cancel);
        }
        if let Err(e) = self.tracks[t].admits(sequence) {
            return Err(e);
        }
        let cell = self.groups.len();
        self.groups.push(GroupState::new(sequence));
        self.tracks[t].append(sequence, cell);
        proof {
            let a = old(self)@;
            let z = self@;
            assert(z.groups =~= a.groups.push(GroupView::start(sequence)));
            assert(z.tracks =~= a.tracks.update(
                t as int,
                a.tracks[t as int].append(sequence, cell as nat),
            ));
            assert(z.broadcasts =~= a.broadcasts);
            lemma_append_group_wf(a, t as nat, sequence);
        }
        Ok(GroupWriter::attach(sequence, cell))
    }

    /// Closes the track cell `t` with `reason`.
    pub(crate) fn close_track(&mut self, t: usize, reason: Closed) -> (r: Result<(), Closed>)
        requires
            old(self).wf(),
        ensures
            final(self).wf(),
            final(self)@ == old(self)@.close_track(t as nat, reason),
            r == old(self)@.track_status(t as nat),
    {
        if t >= self.tracks.len() {
            return Err(Closed::Cancel);
        }
        let r = self.tracks[t].close(reason);
        proof {
            let a = old(self)@;
            let z = self@;
            assert(z.tracks =~= a.tracks.update(t as int, a.tracks[t as int].close(reason)));
            assert(z.groups =~= a.groups);
            assert(z.broadcasts =~= a.broadcasts);
            lemma_close_track_wf(a, t as nat, reason);
        }
        r
    }

    /// Whether the track cell `t` is open.
    pub fn track_status(&self, t: usize) -> (r: Result<(), Closed>)
        ensures
            r == self@.track_status(t as nat),
    {
        if t >= self.tracks.len() {
            return Err(Closed::Cancel);
        }
        self.tracks[t].closed()
    }

    /// Number of groups of the track cell `t`.
    pub fn group_count(&self, t: usize) -> (n: usize)
        ensures
            n == self@.group_count(t as nat),
    {
        if t >= self.tracks.len() {
            return 0;
        }
        self.tracks[t].len()
    }

    /// Number of frames of the group cell `g`.
    pub fn frame_count(&self, g: usize) -> (n: usize)
        ensures
            n == self@.frame_count(g as nat),
    {
        if g >= self.groups.len() {
            return 0;
        }
        self.groups[g].len()
    }

    /// What a consumer of the track cell `t` that has passed `cursor`
    /// groups is told when it asks for the next one.
    pub fn poll_next_group(&self, t: usize, cursor: usize) -> (r: Poll<
        Result<Option<GroupReader>, Closed>,
    >)
        ensures
            match r {
                Poll::Ready(Ok(Some(g))) => self@.poll_next_group(t as nat, cursor as nat)
                    == Poll::Ready(
                    Ok::<Option<(u64, nat)>, Closed>(Some((g.spec_sequence(), g.cell()))),
                ) && g.index() == 0 && cursor < usize::MAX,
                Poll::Ready(Ok(None)) => self@.poll_next_group(t as nat, cursor as nat)
                    == Poll::Ready(Ok::<Option<(u64, nat)>, Closed>(None)),
                Poll::Ready(Err(e)) => self@.poll_next_group(t as nat, cursor as nat)
                    == Poll::Ready(Err::<Option<(u64, nat)>, Closed>(e)),
                Poll::Pending => self@.poll_next_group(t as nat, cursor as nat) == Poll::<
                    Result<Option<(u64, nat)>, Closed>,
                >::Pending,
            },
    {
        if t >= self.tracks.len() {
            return Poll::Ready(Err(Closed::Cancel));
        }
        let track = &self.tracks[t];
        if cursor < track.len() {
            let e = track.entry(cursor);
            Poll::Ready(Ok(Some(GroupReader::attach(e.sequence, e.cell))))
        } else {
            match track.closed() {
                Ok(_) => Poll::Pending,
                Err(Closed::Done) => Poll::Ready(Ok(None)),
                Err(e) => Poll::Ready(Err(e)),
            }
        }
    }

    /// What a consumer of the track cell `t` that has passed `cursor`
    /// groups is told when it asks for the newest one.
    pub fn poll_latest_group(&self, t: usize, cursor: usize) -> (r: Poll<
        Result<Option<GroupReader>, Closed>,
    >)
        ensures
            match r {
                Poll::Ready(Ok(Some(g))) => self@.poll_latest_group(t as nat, cursor as nat)
                    == Poll::Ready(
                    Ok::<Option<(u64, nat)>, Closed>(Some((g.spec_sequence(), g.cell()))),
                ) && g.index() == 0,
                Poll::Ready(Ok(None)) => self@.poll_latest_group(t as nat, cursor as nat)
                    == Poll::Ready(Ok::<Option<(u64, nat)>, Closed>(None)),
                Poll::Ready(Err(e)) => self@.poll_latest_group(t as nat, cursor as nat)
                    == Poll::Ready(Err::<Option<(u64, nat)>, Closed>(e)),
                Poll::Pending => self@.poll_latest_group(t as nat, cursor as nat) == Poll::<
                    Result<Option<(u64, nat)>, Closed>,
                >::Pending,
            },
    {
        if t >= self.tracks.len() {
            return Poll::Ready(Err(Closed::Cancel));
        }
        let track = &self.tracks[t];
        let n = track.len();
        if cursor < n {
            let e = track.entry(n - 1);
            Poll::Ready(Ok(Some(GroupReader::attach(e.sequence, e.cell))))
        } else {
            match track.closed() {
                Ok(_) => Poll::Pending,
                Err(Closed::Done) => Poll::Ready(Ok(None)),
                Err(e) => Poll::Ready(Err(e)),
            }
        }
    }

    /// Adds a fresh broadcast cell and hands back its number.
    pub(crate) fn produce(&mut self) -> (cell: usize)
        requires
            old(self).wf(),
        ensures
            final(self).wf(),
            final(self)@ == old(self)@.produce(),
            cell == old(self)@.broadcasts.len(),
    {
        let cell = self.broadcasts.len();
        self.broadcasts.push(BroadcastState::default());
        proof {
            let a = old(self)@;
            let z = self@;
            assert(z.broadcasts =~= a.broadcasts.push(BroadcastView::start()));
            assert(z.tracks =~= a.tracks);
            assert(z.groups =~= a.groups);
            assert forall|t: int| 0 <= t < z.tracks.len() implies #[trigger] z.track_linked(t) by {
                assert(a.track_linked(t));
            }
            assert forall|b: int| 0 <= b < z.broadcasts.len() implies #[trigger] z.broadcast_linked(
                b,
            ) by {
                if b < a.broadcasts.len() {
                    assert(a.broadcast_linked(b));
                }
            }
        }
        cell
    }

    /// Whether the broadcast cell `b` is open.
    pub fn broadcast_status(&self, b: usize) -> (r: Result<(), Closed>)
        ensures
            r == self@.broadcast_status(b as nat),
    {
        if b >= self.broadcasts.len() {
            return Err(Closed::Cancel);
        }
        self.broadcasts[b].closed()
    }

    /// Whether the producer of the broadcast cell `b` may still change it.
    pub fn broadcast_writable(&self, b: usize) -> (r: Result<(), Closed>)
        ensures
            r == self@.broadcast_writable(b as nat),
    {
        if b >= self.broadcasts.len() {
            return Err(Closed::Cancel);
        }
        let status = self.broadcasts[b].closed();
        if status.is_err() {
            return Err(Closed::Cancel);
        }
        status
    }

    /// Offers `track` to the broadcast cell `b`.
    pub(crate) fn insert_track(&mut self, b: usize, track: Track) -> (r: Result<TrackWriter, Closed>)
        requires
            old(self).wf(),
        ensures
            final(self).wf(),
            final(self)@ == old(self)@.insert_track(b as nat, track@),
            match r {
                Ok(w) => old(self)@.broadcast_writable(b as nat) is Ok && w.cell() == old(
                    self,
                )@.tracks.len() && w.spec_info() == track@,
                Err(e) => old(self)@.broadcast_writable(b as nat) == Err::<(), Closed>(e),
            },
    {
        if let Err(e) = self.broadcast_writable(b) {
            return Err(e);
        }
        let ghost a = self@;
        proof {
            assert(a.broadcast_linked(b as int));
        }
        let cell = self.tracks.len();
        self.tracks.push(TrackState::new(track.clone()));
        let previous = self.broadcasts[b].set_track(track.name.clone(), cell);
        if let Some(p) = previous {
            let _ = self.tracks[p].close(Closed::Replaced);
        }
        proof {
            let z = self@;
            assert(z.tracks =~= a.tracks_after_insert(b as nat, track@));
            assert(z.broadcasts =~= a.broadcasts.update(
                b as int,
                BroadcastView {
                    tracks: a.broadcasts[b as int].tracks.insert(track@.name, cell as nat),
                    ..a.broadcasts[b as int]
                },
            ));
            assert(z.groups =~= a.groups);
            lemma_insert_track_wf(a, b as nat, track@);
        }
        Ok(TrackWriter::attach(track, cell))
    }

    /// Takes `name` out of the broadcast cell `b`.
    pub(crate) fn remove_track(&mut self, b: usize, name: &str) -> (r: Option<TrackReader>)
        requires
            old(self).wf(),
        ensures
            final(self).wf(),
            final(self)@ == old(self)@.remove_track(b as nat, name@),
            match r {
                Some(t) => old(self)@.removable(b as nat, name@) == Some(t.cell()) && t.cursor()
                    == 0 && t.spec_info() == old(self)@.tracks[t.cell() as int].info,
                None => old(self)@.removable(b as nat, name@) is None,
            },
    {
        if self.broadcast_writable(b).is_err() {
            return None;
        }
        let ghost a = self@;
        proof {
            assert(a.broadcast_linked(b as int));
        }
        match self.broadcasts[b].unset_track(name) {
            None => {
                proof {
                    assert(a.broadcasts[b as int].tracks.remove(name@) =~= a.broadcasts[b as int].tracks);
                    assert(self@.broadcasts[b as int] == a.broadcasts[b as int]);
                    assert(self@.broadcasts =~= a.broadcasts);
                    assert(self@.tracks =~= a.tracks);
                    assert(self@.groups =~= a.groups);
                }
                None
            },
            Some(cell) => {
                proof {
                    let z = self@;
                    assert(z.broadcasts =~= a.broadcasts.update(
                        b as int,
                        BroadcastView {
                            tracks: a.broadcasts[b as int].tracks.remove(name@),
                            ..a.broadcasts[b as int]
                        },
                    ));
                    assert(z.tracks =~= a.tracks);
                    assert(z.groups =~= a.groups);
                    lemma_remove_track_wf(a, b as nat, name@);
                }
                Some(TrackReader::attach(self.tracks[cell].info().clone(), cell))
            },
        }
    }

    /// Registers `reader` as the fallback of the broadcast cell `b`.
    pub(crate) fn set_unknown(&mut self, b: usize, reader: UnknownReader) -> (r: Result<(), Closed>)
        requires
            old(self).wf(),
        ensures
            final(self).wf(),
            final(self)@ == old(self)@.set_unknown(b as nat, reader),
            r == old(self)@.broadcast_writable(b as nat),
    {
        let status = self.broadcast_writable(b);
        if status.is_err() {
            return status;
        }
        self.broadcasts[b].set_unknown(reader);
        proof {
            let a = old(self)@;
            let z = self@;
            assert(z.broadcasts =~= a.broadcasts.update(
                b as int,
                BroadcastView { unknown: Some(reader), ..a.broadcasts[b as int] },
            ));
            assert(z.tracks =~= a.tracks);
            assert(z.groups =~= a.groups);
            lemma_broadcast_changed(a, z, b as int);
        }
        status
    }

    /// Closes the broadcast cell `b` with `reason`.
    pub(crate) fn close_broadcast(&mut self, b: usize, reason: Closed) -> (r: Result<(), Closed>)
        requires
            old(self).wf(),
        ensures
            final(self).wf(),
            final(self)@ == old(self)@.close_broadcast(b as nat, reason),
            r == old(self)@.broadcast_status(b as nat),
    {
        if b >= self.broadcasts.len() {
            return Err(Closed::Cancel);
        }
        let r = self.broadcasts[b].close(reason);
        proof {
            let a = old(self)@;
            let z = self@;
            assert(z.broadcasts =~= a.broadcasts.update(
                b as int,
                a.broadcasts[b as int].close(reason),
            ));
            assert(z.tracks =~= a.tracks);
            assert(z.groups =~= a.groups);
            lemma_broadcast_changed(a, z, b as int);
        }
        r
    }

    /// Asks the broadcast cell `b` for the track `name`.
    pub fn lookup(&self, b: usize, name: &str) -> (r: Result<Subscribed, Closed>)
        requires
            self.wf(),
        ensures
            match r {
                Ok(Subscribed::Track(t)) => self@.lookup(b as nat, name@) == Ok::<
                    Result<nat, UnknownReader>,
                    Closed,
                >(Ok(t.cell())) && t.cursor() == 0 && t.spec_info() == self@.tracks[t.cell() as int].info,
                Ok(Subscribed::Unknown(u)) => self@.lookup(b as nat, name@) == Ok::<
                    Result<nat, UnknownReader>,
                    Closed,
                >(Err(u)),
                Err(e) => self@.lookup(b as nat, name@) == Err::<
                    Result<nat, UnknownReader>,
                    Closed,
                >(e),
            },
    {
        if b >= self.broadcasts.len() {
            return Err(Closed::Cancel);
        }
        proof {
            assert(self@.broadcast_linked(b as int));
        }
        match self.broadcasts[b].track(name) {
            Some(cell) => Ok(
                Subscribed::Track(TrackReader::attach(self.tracks[cell].info().clone(), cell)),
            ),
            None => match self.broadcasts[b].unknown() {
                Some(u) => Ok(Subscribed::Unknown(u)),
                None => Err(Closed::UnknownTrack),
            },
        }
    }
}

/// A change to the contents of group cells that keeps their number and
/// their sequence numbers keeps the hub consistent.
proof fn lemma_groups_changed(a: HubView, z: HubView)
    requires
        a.wf(),
        z.tracks == a.tracks,
        z.broadcasts == a.broadcasts,
        z.groups.len() == a.groups.len(),
        forall|g: int| 0 <= g < a.groups.len() ==> (#[trigger] z.groups[g]).sequence == a.groups[g].sequence,
    ensures
        z.wf(),
{
    assert forall|t: int| 0 <= t < z.tracks.len() implies #[trigger] z.track_linked(t) by {
        assert(a.track_linked(t));
    }
    assert forall|b: int| 0 <= b < z.broadcasts.len() implies #[trigger] z.broadcast_linked(b) by {
        assert(a.broadcast_linked(b));
    }
}

/// A change to one broadcast cell that keeps its list of tracks keeps the
/// hub consistent.
proof fn lemma_broadcast_changed(a: HubView, z: HubView, b: int)
    requires
        a.wf(),
        0 <= b < a.broadcasts.len(),
        z.tracks == a.tracks,
        z.groups == a.groups,
        z.broadcasts.len() == a.broadcasts.len(),
        forall|c: int| 0 <= c < a.broadcasts.len() && c != b ==> z.broadcasts[c] == a.broadcasts[c],
        z.broadcasts[b].tracks == a.broadcasts[b].tracks,
    ensures
        z.wf(),
{
    assert forall|t: int| 0 <= t < z.tracks.len() implies #[trigger] z.track_linked(t) by {
        assert(a.track_linked(t));
    }
    assert forall|c: int| 0 <= c < z.broadcasts.len() implies #[trigger] z.broadcast_linked(c) by {
        assert(a.broadcast_linked(c));
    }
}

/// Appending a group keeps the hub consistent.
pub proof fn lemma_append_group_wf(a: HubView, t: nat, sequence: u64)
    requires
        a.wf(),
    ensures
        a.append_group(t, sequence).wf(),
{
    let z = a.append_group(t, sequence);
    if a.track_admits(t, sequence) is Ok {
        assert forall|u: int| 0 <= u < z.tracks.len() implies #[trigger] z.track_linked(u) by {
            assert(a.track_linked(u));
            if u == t {
                let old_groups = a.tracks[u].groups;
                let new_groups = z.tracks[u].groups;
                assert forall|i: int, j: int| 0 <= i < j < new_groups.len() implies (
                #[trigger] new_groups[i]).0 < (#[trigger] new_groups[j]).0 by {
                    if j == old_groups.len() {
                        assert(old_groups[i].0 <= old_groups.last().0) by {
                            if i < old_groups.len() - 1 {
                                assert(old_groups[i].0 < old_groups[old_groups.len() - 1].0);
                            }
                        }
                    } else {
                        assert(old_groups[i].0 < old_groups[j].0);
                    }
                }
                assert forall|i: int| 0 <= i < new_groups.len() implies (#[trigger] new_groups[i]).1
                    < z.groups.len() && z.groups[new_groups[i].1 as int].sequence
                    == new_groups[i].0 by {
                    if i < old_groups.len() {
                        assert(old_groups[i].1 < a.groups.len());
                    }
                }
            } else {
                assert forall|i: int| 0 <= i < z.tracks[u].groups.len() implies (
                #[trigger] z.tracks[u].groups[i]).1 < z.groups.len()
                    && z.groups[z.tracks[u].groups[i].1 as int].sequence
                    == z.tracks[u].groups[i].0 by {
                    assert(a.tracks[u].groups[i].1 < a.groups.len());
                }
            }
        }
        assert forall|b: int| 0 <= b < z.broadcasts.len() implies #[trigger] z.broadcast_linked(
            b,
        ) by {
            assert(a.broadcast_linked(b));
        }
    }
}

/// Closing a track keeps the hub consistent.
pub proof fn lemma_close_track_wf(a: HubView, t: nat, reason: Closed)
    requires
        a.wf(),
    ensures
        a.close_track(t, reason).wf(),
{
    let z = a.close_track(t, reason);
    assert forall|u: int| 0 <= u < z.tracks.len() implies #[trigger] z.track_linked(u) by {
        assert(a.track_linked(u));
    }
    assert forall|b: int| 0 <= b < z.broadcasts.len() implies #[trigger] z.broadcast_linked(b) by {
        assert(a.broadcast_linked(b));
    }
}

/// Putting a track into a broadcast keeps the hub consistent.
pub proof fn lemma_insert_track_wf(a: HubView, b: nat, info: TrackInfo)
    requires
        a.wf(),
    ensures
        a.insert_track(b, info).wf(),
{
    let z = a.insert_track(b, info);
    if a.broadcast_writable(b) is Ok {
        assert(a.broadcast_linked(b as int));
        assert forall|u: int| 0 <= u < z.tracks.len() implies #[trigger] z.track_linked(u) by {
            if u < a.tracks.len() {
                assert(a.track_linked(u));
                assert(z.tracks[u].groups == a.tracks[u].groups);
            }
        }
        assert forall|c: int| 0 <= c < z.broadcasts.len() implies #[trigger] z.broadcast_linked(
            c,
        ) by {
            assert(a.broadcast_linked(c));
            assert forall|k: Seq<char>| #[trigger]
                z.broadcasts[c].tracks.contains_key(k) implies z.broadcasts[c].tracks[k]
                < z.tracks.len() && z.tracks[z.broadcasts[c].tracks[k] as int].info.name == k by {
                if c == b && k == info.name {
                } else {
                    assert(a.broadcasts[c].tracks.contains_key(k));
                    let cell = a.broadcasts[c].tracks[k] as int;
                    assert(z.tracks[cell].info == a.tracks[cell].info);
                }
            }
        }
    }
}

/// Taking a track out of a broadcast keeps the hub consistent.
pub proof fn lemma_remove_track_wf(a: HubView, b: nat, name: Seq<char>)
    requires
        a.wf(),
    ensures
        a.remove_track(b, name).wf(),
{
    let z = a.remove_track(b, name);
    assert forall|u: int| 0 <= u < z.tracks.len() implies #[trigger] z.track_linked(u) by {
        assert(a.track_linked(u));
    }
    assert forall|c: int| 0 <= c < z.broadcasts.len() implies #[trigger] z.broadcast_linked(c) by {
        assert(a.broadcast_linked(c));
        assert forall|k: Seq<char>| #[trigger]
            z.broadcasts[c].tracks.contains_key(k) implies z.broadcasts[c].tracks[k]
            < z.tracks.len() && z.tracks[z.broadcasts[c].tracks[k] as int].info.name == k by {
            assert(a.broadcasts[c].tracks.contains_key(k));
        }
    }
}

} // verus!
