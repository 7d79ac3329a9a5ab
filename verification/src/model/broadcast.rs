//! A broadcast: a collection of tracks by name, and the two handles on it.
//!
//! The producing handle creates tracks. The consuming handle asks for
//! tracks by name: a track that exists is handed out; for one that does not
//! the answer names the fallback that the producer registered, if any.
use vstd::prelude::*;

use crate::error::Closed;
use crate::model::directory::Directory;
use crate::model::group::Poll;
use crate::model::hub::Hub;
use crate::model::track::Track;
use crate::model::track::TrackBuilder;
use crate::model::track::TrackInfo;
use crate::model::track::TrackReader;
use crate::model::track::TrackWriter;
use crate::text::str_to_string;

verus! {

/// Static information about a broadcast.
#[derive(Debug, PartialEq, Eq)]
pub struct Broadcast {
    pub name: String,
}

impl View for Broadcast {
    type V = Seq<char>;

    open spec fn view(&self) -> Seq<char> {
        self.name@
    }
}

impl Clone for Broadcast {
    fn clone(&self) -> (r: Broadcast)
        ensures
            r@ == self@,
    {
        Broadcast { name: self.name.clone() }
    }
}

/// Names the fallback that is asked for tracks that a broadcast does not
/// hold.
#[derive(Clone, Copy, Debug, PartialEq, Eq, Structural)]
pub struct UnknownReader {
    pub id: u64,
}

/// What a broadcast cell holds, as plain values.
pub struct BroadcastView {
    pub tracks: Map<Seq<char>, nat>,
    pub unknown: Option<UnknownReader>,
    pub closed: Result<(), Closed>,
}

impl BroadcastView {
    /// A fresh broadcast: no track, no fallback, open.
    pub open spec fn start() -> BroadcastView {
        BroadcastView { tracks: Map::empty(), unknown: None, closed: Ok(()) }
    }

    /// The broadcast after it was closed with `reason`: the first closure
    /// stays.
    pub open spec fn close(self, reason: Closed) -> BroadcastView {
        if self.closed is Ok {
            BroadcastView { closed: Err(reason), ..self }
        } else {
            self
        }
    }

    /// Whether the producer may still change the broadcast: `Cancel` once
    /// it is closed.
    pub open spec fn writable(self) -> Result<(), Closed> {
        match self.closed {
            Ok(u) => Ok(u),
            Err(_) => Err(Closed::Cancel),
        }
    }
}

/// The shared state of one broadcast.
pub struct BroadcastState {
    tracks: Directory<usize>,
    unknown: Option<UnknownReader>,
    closed: Result<(), Closed>,
}

impl View for BroadcastState {
    type V = BroadcastView;

    closed spec fn view(&self) -> BroadcastView {
        BroadcastView {
            tracks: self.tracks@.map_values(|c: usize| c as nat),
            unknown: self.unknown,
            closed: self.closed,
        }
    }
}

impl Default for BroadcastState {
    fn default() -> (s: BroadcastState)
        ensures
            s@ == BroadcastView::start(),
    {
        let s = BroadcastState { tracks: Directory::new(), unknown: None, closed: Ok(()) };
        assert(s@.tracks =~= Map::<Seq<char>, nat>::empty());
        s
    }
}

impl BroadcastState {
    /// Whether and why the broadcast is closed.
    pub fn closed(&self) -> (c: Result<(), Closed>)
        ensures
            c == self@.closed,
    {
        self.closed
    }

    /// The fallback for tracks that the broadcast does not hold.
    pub fn unknown(&self) -> (u: Option<UnknownReader>)
        ensures
            u == self@.unknown,
    {
        self.unknown
    }

    /// The cell of the track `name`, if the broadcast holds it.
    pub fn track(&self, name: &str) -> (r: Option<usize>)
        ensures
            match r {
                Some(c) => self@.tracks.contains_key(name@) && self@.tracks[name@] == c,
                None => !self@.tracks.contains_key(name@),
            },
    {
        match self.tracks.get(name) {
            Some(c) => Some(*c),
            None => None,
        }
    }

    /// Lets `name` stand for the track cell `cell` and hands back the cell
    /// that it stood for before, if any.
    pub fn set_track(&mut self, name: String, cell: usize) -> (r: Option<usize>)
        ensures
            final(self)@ == (BroadcastView {
                tracks: old(self)@.tracks.insert(name@, cell as nat),
                ..old(self)@
            }),
            match r {
                Some(c) => old(self)@.tracks.contains_key(name@) && old(self)@.tracks[name@] == c,
                None => !old(self)@.tracks.contains_key(name@),
            },
    {
        let r = self.tracks.insert(name, cell);
        assert(self@.tracks =~= old(self)@.tracks.insert(name@, cell as nat));
        r
    }

    /// Takes the track `name` out and hands back its cell, if the broadcast
    /// held it.
    pub fn unset_track(&mut self, name: &str) -> (r: Option<usize>)
        ensures
            final(self)@ == (BroadcastView {
                tracks: old(self)@.tracks.remove(name@),
                ..old(self)@
            }),
            match r {
                Some(c) => old(self)@.tracks.contains_key(name@) && old(self)@.tracks[name@] == c,
                None => !old(self)@.tracks.contains_key(name@),
            },
    {
        let r = self.tracks.remove(name);
        assert(self@.tracks =~= old(self)@.tracks.remove(name@));
        r
    }

    /// Registers the fallback.
    pub fn set_unknown(&mut self, reader: UnknownReader)
        ensures
            final(self)@ == (BroadcastView { unknown: Some(reader), ..old(self)@ }),
    {
        self.unknown = Some(reader);
    }

    /// Closes the broadcast with `reason` while it is open; a closed
    /// broadcast stays as it is and answers with its closure.
    pub fn close(&mut self, reason: Closed) -> (r: Result<(), Closed>)
        ensures
            final(self)@ == old(self)@.close(reason),
            r == old(self)@.closed,
    {
        let status = self.closed;
        if status.is_ok() {
            self.closed = Err(reason);
        }
        status
    }
}

/// What a consumer gets when it asks a broadcast for a track.
#[derive(Debug)]
pub enum Subscribed {
    /// The broadcast holds the track: a consumer of it.
    Track(TrackReader),
    /// The broadcast does not hold the track: the fallback to ask.
    Unknown(UnknownReader),
}

/// The producing handle on a broadcast.
#[derive(Debug)]
pub struct BroadcastWriter {
    info: Broadcast,
    cell: usize,
}

/// The consuming handle on a broadcast.
#[derive(Debug)]
pub struct BroadcastReader {
    info: Broadcast,
    cell: usize,
}

/// A track of a broadcast in the making.
#[derive(Debug)]
pub struct BroadcastTrackBuilder {
    pub broadcast: usize,
    pub track: TrackBuilder,
}

impl Broadcast {
    /// The information of a broadcast named `name`.
    pub fn new(name: &str) -> (b: Broadcast)
        ensures
            b@ == name@,
    {
        Broadcast { name: str_to_string(name) }
    }

    /// Puts a fresh broadcast cell into the hub and hands out its two
    /// handles.
    pub fn produce(self, hub: &mut Hub) -> (r: (BroadcastWriter, BroadcastReader))
        requires
            old(hub).wf(),
        ensures
            final(hub).wf(),
            final(hub)@ == old(hub)@.produce(),
            r.0.cell() == old(hub)@.broadcasts.len(),
            r.1.cell() == old(hub)@.broadcasts.len(),
            r.0.spec_info() == self@,
            r.1.spec_info() == self@,
    {
        let cell = hub.produce();
        let writer = BroadcastWriter::new(cell, self.clone());
        let reader = BroadcastReader::new(cell, self);
        (writer, reader)
    }
}

impl BroadcastWriter {
    /// The producing handle on the broadcast cell `cell`.
    pub(crate) fn new(cell: usize, info: Broadcast) -> (w: BroadcastWriter)
        ensures
            w.cell() == cell,
            w.spec_info() == info@,
    {
        BroadcastWriter { info, cell }
    }

    /// The cell of the hub that holds the broadcast.
    pub closed spec fn cell(&self) -> nat {
        self.cell as nat
    }

    /// The name of the broadcast.
    pub closed spec fn spec_info(&self) -> Seq<char> {
        self.info@
    }

    /// The static information.
    pub fn info(&self) -> (i: &Broadcast)
        ensures
            i@ == self.spec_info(),
    {
        &self.info
    }

    /// The number of the cell.
    pub fn id(&self) -> (c: usize)
        ensures
            c == self.cell(),
    {
        self.cell
    }

    /// Starts a track of this broadcast; `build` puts it in.
    pub fn create(&self, name: &str, priority: u64) -> (b: BroadcastTrackBuilder)
        ensures
            b.broadcast == self.cell(),
            b.track.track@ == (TrackInfo { broadcast: self.spec_info(), name: name@, priority }),
    {
        BroadcastTrackBuilder::new(self, name, priority)
    }

    /// Routes requests for tracks that the broadcast does not hold to
    /// `reader`. A closed broadcast, or a handle that names no cell of this
    /// hub, answers `Cancel` and nothing changes.
    pub fn unknown(&self, hub: &mut Hub, reader: UnknownReader) -> (r: Result<(), Closed>)
        requires
            old(hub).wf(),
        ensures
            final(hub).wf(),
            final(hub)@ == old(hub)@.set_unknown(self.cell(), reader),
            r == old(hub)@.broadcast_writable(self.cell()),
    {
        hub.set_unknown(self.cell, reader)
    }

    /// Puts `track` into the broadcast under its name and hands out its
    /// producer. A track that the broadcast held under that name is
    /// replaced, and its cell is closed with `Replaced` if it was open. A
    /// closed broadcast, or a handle that names no cell of this hub, answers
    /// `Cancel` and nothing changes.
    pub fn insert(&self, hub: &mut Hub, track: Track) -> (r: Result<TrackWriter, Closed>)
        requires
            old(hub).wf(),
        ensures
            final(hub).wf(),
            final(hub)@ == old(hub)@.insert_track(self.cell(), track@),
            match r {
                Ok(w) => old(hub)@.broadcast_writable(self.cell()) is Ok && w.cell() == old(
                    hub,
                )@.tracks.len() && w.spec_info() == track@,
                Err(e) => old(hub)@.broadcast_writable(self.cell()) == Err::<(), Closed>(e),
            },
    {
        hub.insert_track(self.cell, track)
    }

    /// Takes the track `name` out of the broadcast and hands out a consumer
    /// of it, set at its first group. The track's cell stays as it is. The
    /// answer is `None`, and nothing changes, where the broadcast holds no
    /// such track, is closed, or the handle names no cell of this hub.
    pub fn remove(&self, hub: &mut Hub, name: &str) -> (r: Option<TrackReader>)
        requires
            old(hub).wf(),
        ensures
            final(hub).wf(),
            final(hub)@ == old(hub)@.remove_track(self.cell(), name@),
            match r {
                Some(t) => old(hub)@.removable(self.cell(), name@) == Some(t.cell()) && t.cursor()
                    == 0 && t.spec_info() == old(hub)@.tracks[t.cell() as int].info,
                None => old(hub)@.removable(self.cell(), name@) is None,
            },
    {
        hub.remove_track(self.cell, name)
    }

    /// Closes the broadcast with the application's `code`. The answer is
    /// `Ok` exactly when this call closed it; a broadcast that was closed
    /// before stays as it is and answers with its closure.
    pub fn close(&self, hub: &mut Hub, code: u32) -> (r: Result<(), Closed>)
        requires
            old(hub).wf(),
        ensures
            final(hub).wf(),
            final(hub)@ == old(hub)@.close_broadcast(self.cell(), Closed::App(code)),
            r == old(hub)@.broadcast_status(self.cell()),
    {
        hub.close_broadcast(self.cell, Closed::App(code))
    }

    /// Gives the broadcast up: an open broadcast is closed with `Done`.
    pub fn finish(self, hub: &mut Hub)
        requires
            old(hub).wf(),
        ensures
            final(hub).wf(),
            final(hub)@ == old(hub)@.close_broadcast(self.cell(), Closed::Done),
    {
        let _ = hub.close_broadcast(self.cell, Closed::Done);
    }

    /// Whether and why the broadcast is closed: `Pending` while it is open,
    /// else the closure.
    pub fn closed(&self, hub: &Hub) -> (r: Poll<Closed>)
        ensures
            match r {
                Poll::Pending => hub@.broadcast_status(self.cell()) is Ok,
                Poll::Ready(e) => hub@.broadcast_status(self.cell()) == Err::<(), Closed>(e),
            },
    {
        match hub.broadcast_status(self.cell) {
            Ok(_) => Poll::Pending,
            Err(e) => Poll::Ready(e),
        }
    }

    /// A consumer of the same broadcast.
    pub fn subscribe(&self) -> (r: BroadcastReader)
        ensures
            r.cell() == self.cell(),
            r.spec_info() == self.spec_info(),
    {
        BroadcastReader { info: self.info.clone(), cell: self.cell }
    }
}

impl BroadcastTrackBuilder {
    /// A track named `name` of the broadcast that `broadcast` produces.
    pub fn new(broadcast: &BroadcastWriter, name: &str, priority: u64) -> (b: BroadcastTrackBuilder)
        ensures
            b.broadcast == broadcast.cell(),
            b.track.track@ == (TrackInfo { broadcast: broadcast.spec_info(), name: name@, priority }),
    {
        BroadcastTrackBuilder {
            broadcast: broadcast.cell,
            track: Track::new(broadcast.info.name.as_str(), name, priority),
        }
    }

    /// Puts the track into the broadcast, as `BroadcastWriter::insert` does.
    pub fn build(self, hub: &mut Hub) -> (r: Result<TrackWriter, Closed>)
        requires
            old(hub).wf(),
        ensures
            final(hub).wf(),
            final(hub)@ == old(hub)@.insert_track(self.broadcast as nat, self.track.track@),
            match r {
                Ok(w) => old(hub)@.broadcast_writable(self.broadcast as nat) is Ok && w.cell()
                    == old(hub)@.tracks.len() && w.spec_info() == self.track.track@,
                Err(e) => old(hub)@.broadcast_writable(self.broadcast as nat) == Err::<(), Closed>(
                    e,
                ),
            },
    {
        hub.insert_track(self.broadcast, self.track.build())
    }
}

impl Clone for BroadcastReader {
    fn clone(&self) -> (r: BroadcastReader)
        ensures
            r.cell() == self.cell(),
            r.spec_info() == self.spec_info(),
    {
        BroadcastReader { info: self.info.clone(), cell: self.cell }
    }
}

impl BroadcastReader {
    /// The consuming handle on the broadcast cell `cell`.
    pub(crate) fn new(cell: usize, info: Broadcast) -> (r: BroadcastReader)
        ensures
            r.cell() == cell,
            r.spec_info() == info@,
    {
        BroadcastReader { info, cell }
    }

    /// The cell of the hub that holds the broadcast.
    pub closed spec fn cell(&self) -> nat {
        self.cell as nat
    }

    /// The name of the broadcast.
    pub closed spec fn spec_info(&self) -> Seq<char> {
        self.info@
    }

    /// The static information.
    pub fn info(&self) -> (i: &Broadcast)
        ensures
            i@ == self.spec_info(),
    {
        &self.info
    }

    /// The number of the cell, by which two handles on one broadcast are
    /// told from handles on another.
    pub fn id(&self) -> (c: usize)
        ensures
            c == self.cell(),
    {
        self.cell
    }

    /// Asks for the track that `track` names. A track that the broadcast
    /// holds is handed out as a consumer set at its first group; else the
    /// answer names the fallback that the producer registered; with neither
    /// it is `UnknownTrack`. A handle that names no cell of this hub is told
    /// `Cancel`.
    pub fn subscribe(&self, hub: &Hub, track: &Track) -> (r: Result<Subscribed, Closed>)
        requires
            hub.wf(),
        ensures
            match r {
                Ok(Subscribed::Track(t)) => hub@.lookup(self.cell(), track@.name) == Ok::<
                    Result<nat, UnknownReader>,
                    Closed,
                >(Ok(t.cell())) && t.cursor() == 0 && t.spec_info() == hub@.tracks[t.cell() as int].info,
                Ok(Subscribed::Unknown(u)) => hub@.lookup(self.cell(), track@.name) == Ok::<
                    Result<nat, UnknownReader>,
                    Closed,
                >(Err(u)),
                Err(e) => hub@.lookup(self.cell(), track@.name) == Err::<
                    Result<nat, UnknownReader>,
                    Closed,
                >(e),
            },
    {
        hub.lookup(self.cell, track.name.as_str())
    }

    /// Whether and why the broadcast is closed: `Pending` while it is open,
    /// else the closure. A handle that names no cell of this hub is told
    /// `Cancel`.
    pub fn closed(&self, hub: &Hub) -> (r: Poll<Closed>)
        ensures
            match r {
                Poll::Pending => hub@.broadcast_status(self.cell()) is Ok,
                Poll::Ready(e) => hub@.broadcast_status(self.cell()) == Err::<(), Closed>(e),
            },
    {
        match hub.broadcast_status(self.cell) {
            Ok(_) => Poll::Pending,
            Err(e) => Poll::Ready(e),
        }
    }
}

} // verus!
