//! A track: a named, append-only run of groups with strictly increasing
//! sequence numbers, and the two handles on it.
use vstd::prelude::*;

use crate::error::Closed;
use crate::model::group::GroupReader;
use crate::model::group::GroupWriter;
use crate::model::group::Poll;
use crate::model::hub::Hub;
use crate::model::hub::HubView;
use crate::text::str_to_string;

verus! {

/// Static information about a track.
#[derive(Debug, PartialEq, Eq)]
pub struct Track {
    /// The name of the broadcast that the track belongs to.
    pub broadcast: String,
    /// The name of the track within its broadcast.
    pub name: String,
    /// The scheduling hint that each group stream of the track carries.
    pub priority: u64,
}

/// What a `Track` holds, as plain values.
pub struct TrackInfo {
    pub broadcast: Seq<char>,
    pub name: Seq<char>,
    pub priority: u64,
}

impl View for Track {
    type V = TrackInfo;

    open spec fn view(&self) -> TrackInfo {
        TrackInfo { broadcast: self.broadcast@, name: self.name@, priority: self.priority }
    }
}

impl Clone for Track {
    fn clone(&self) -> (r: Track)
        ensures
            r@ == self@,
    {
        Track {
            broadcast: self.broadcast.clone(),
            name: self.name.clone(),
            priority: self.priority,
        }
    }
}

/// A track in the making.
#[derive(Debug)]
pub struct TrackBuilder {
    pub track: Track,
}

impl Track {
    /// Starts a track of the given broadcast, name and priority.
    pub fn new(broadcast: &str, name: &str, priority: u64) -> (b: TrackBuilder)
        ensures
            b.track@ == (TrackInfo { broadcast: broadcast@, name: name@, priority }),
    {
        TrackBuilder {
            track: Track { broadcast: str_to_string(broadcast), name: str_to_string(name), priority },
        }
    }
}

impl TrackBuilder {
    /// The same track with another priority.
    pub fn priority(self, priority: u64) -> (b: TrackBuilder)
        ensures
            b.track@ == (TrackInfo { priority, ..self.track@ }),
    {
        TrackBuilder {
            track: Track { broadcast: self.track.broadcast, name: self.track.name, priority },
        }
    }

    /// The finished track.
    pub fn build(self) -> (t: Track)
        ensures
            t@ == self.track@,
    {
        self.track
    }
}

/// What a track cell holds, as plain values: per group its sequence number
/// and its cell, in the order of appending.
pub struct TrackView {
    pub info: TrackInfo,
    pub groups: Seq<(u64, nat)>,
    pub closed: Result<(), Closed>,
}

impl TrackView {
    /// A fresh track.
    pub open spec fn start(info: TrackInfo) -> TrackView {
        TrackView { info, groups: Seq::empty(), closed: Ok(()) }
    }

    /// The sequence numbers rise strictly from group to group.
    pub open spec fn increasing(self) -> bool {
        forall|i: int, j: int|
            0 <= i < j < self.groups.len() ==> (#[trigger] self.groups[i]).0 < (
            #[trigger] self.groups[j]).0
    }

    /// Whether a group of the given sequence number may be appended: the
    /// closure of a closed track; `Duplicate` where the number does not
    /// exceed that of the last group; else `Ok`.
    pub open spec fn admits(self, sequence: u64) -> Result<(), Closed> {
        match self.closed {
            Err(e) => Err(e),
            Ok(u) => if self.groups.len() > 0 && self.groups.last().0 >= sequence {
                Err(Closed::Duplicate)
            } else {
                Ok(u)
            },
        }
    }

    /// The track after the group was appended.
    pub open spec fn append(self, sequence: u64, cell: nat) -> TrackView {
        TrackView { groups: self.groups.push((sequence, cell)), ..self }
    }

    /// The track after it was closed with `reason`: the first closure
    /// stays.
    pub open spec fn close(self, reason: Closed) -> TrackView {
        if self.closed is Ok {
            TrackView { closed: Err(reason), ..self }
        } else {
            self
        }
    }

    /// What a consumer is told once it has passed every group: to wait
    /// while the track is open, the clean end after `Done`, else the error.
    pub open spec fn at_end(self) -> Poll<Result<Option<(u64, nat)>, Closed>> {
        match self.closed {
            Ok(_) => Poll::Pending,
            Err(Closed::Done) => Poll::Ready(Ok(None)),
            Err(e) => Poll::Ready(Err(e)),
        }
    }

    /// What a consumer that has passed `cursor` groups is told when it asks
    /// for the next one.
    pub open spec fn poll_next(self, cursor: nat) -> Poll<Result<Option<(u64, nat)>, Closed>> {
        if cursor < self.groups.len() {
            Poll::Ready(Ok(Some(self.groups[cursor as int])))
        } else {
            self.at_end()
        }
    }

    /// What a consumer that has passed `cursor` groups is told when it asks
    /// for the newest one.
    pub open spec fn poll_latest(self, cursor: nat) -> Poll<Result<Option<(u64, nat)>, Closed>> {
        if cursor < self.groups.len() {
            Poll::Ready(Ok(Some(self.groups.last())))
        } else {
            self.at_end()
        }
    }
}

/// One group of a track: its sequence number and its cell.
#[derive(Clone, Copy, Debug)]
pub struct GroupEntry {
    pub sequence: u64,
    pub cell: usize,
}

/// The shared state of one track.
pub struct TrackState {
    info: Track,
    groups: Vec<GroupEntry>,
    closed: Result<(), Closed>,
}

impl View for TrackState {
    type V = TrackView;

    closed spec fn view(&self) -> TrackView {
        TrackView {
            info: self.info@,
            groups: Seq::new(
                self.groups@.len(),
                |i: int| (self.groups@[i].sequence, self.groups@[i].cell as nat),
            ),
            closed: self.closed,
        }
    }
}

impl TrackState {
    /// A fresh track.
    pub fn new(info: Track) -> (t: TrackState)
        ensures
            t@ == TrackView::start(info@),
    {
        let t = TrackState { info, groups: Vec::new(), closed: Ok(()) };
        assert(t@.groups =~= Seq::<(u64, nat)>::empty());
        t
    }

    /// The static information.
    pub fn info(&self) -> (i: &Track)
        ensures
            i@ == self@.info,
    {
        &self.info
    }

    /// Whether a group of the given sequence number may be appended.
    pub fn admits(&self, sequence: u64) -> (r: Result<(), Closed>)
        ensures
            r == self@.admits(sequence),
    {
        let status = self.closed;
        if status.is_err() {
            return status;
        }
        let n = self.groups.len();
        if n > 0 && self.groups[n - 1].sequence >= sequence {
            assert(self@.groups.last().0 == self.groups@[n - 1].sequence);
            return Err(Closed::Duplicate);
        }
        proof {
            if n > 0 {
                assert(self@.groups.last().0 == self.groups@[n - 1].sequence);
            }
        }
        status
    }

    /// Appends the group.
    pub fn append(&mut self, sequence: u64, cell: usize)
        ensures
            final(self)@ == old(self)@.append(sequence, cell as nat),
    {
        self.groups.push(GroupEntry { sequence, cell });
        assert(self@.groups =~= old(self)@.groups.push((sequence, cell as nat)));
    }

    /// Closes the track with `reason` while it is open; a closed track stays
    /// as it is and answers with its closure.
    pub fn close(&mut self, reason: Closed) -> (r: Result<(), Closed>)
        ensures
            final(self)@ == old(self)@.close(reason),
            r == old(self)@.closed,
    {
        let status = self.closed;
        if status.is_ok() {
            self.closed = Err(reason);
            assert(self@.groups =~= old(self)@.groups);
        }
        status
    }

    /// Whether and why the track is closed.
    pub fn closed(&self) -> (c: Result<(), Closed>)
        ensures
            c == self@.closed,
    {
        self.closed
    }

    /// Number of groups appended so far.
    pub fn len(&self) -> (n: usize)
        ensures
            n == self@.groups.len(),
    {
        self.groups.len()
    }

    /// The group at `index` in the order of appending.
    pub fn entry(&self, index: usize) -> (e: GroupEntry)
        requires
            index < self@.groups.len(),
        ensures
            (e.sequence, e.cell as nat) == self@.groups[index as int],
    {
        self.groups[index]
    }
}

/// The producing handle on a track.
#[derive(Debug)]
pub struct TrackWriter {
    info: Track,
    cell: usize,
}

/// The consuming handle on a track: the cell and the number of groups
/// passed so far.
#[derive(Debug)]
pub struct TrackReader {
    info: Track,
    cell: usize,
    cursor: usize,
}

impl TrackWriter {
    /// The producing handle on the track cell `cell`.
    pub(crate) fn attach(info: Track, cell: usize) -> (w: TrackWriter)
        ensures
            w.cell() == cell,
            w.spec_info() == info@,
    {
        TrackWriter { info, cell }
    }

    /// The cell of the hub that holds the track.
    pub closed spec fn cell(&self) -> nat {
        self.cell as nat
    }

    /// The static information.
    pub closed spec fn spec_info(&self) -> TrackInfo {
        self.info@
    }

    /// The static information.
    pub fn info(&self) -> (i: &Track)
        ensures
            i@ == self.spec_info(),
    {
        &self.info
    }

    /// The number of the cell.
    pub fn id(&self) -> (c: usize)
        ensures
            c == self.cell(),
    {
        self.cell
    }

    /// Starts the group with the given sequence number, which must exceed
    /// that of the last group: a number that does not is refused with
    /// `Duplicate`, a closed track answers with its closure, and a handle
    /// that names no cell of this hub is told `Cancel`. Where the answer is
    /// an error the hub stays as it was.
    pub fn append_group(&self, hub: &mut Hub, sequence: u64) -> (r: Result<GroupWriter, Closed>)
        requires
            old(hub).wf(),
        ensures
            final(hub).wf(),
            final(hub)@ == old(hub)@.append_group(self.cell(), sequence),
            match r {
                Ok(w) => old(hub)@.track_admits(self.cell(), sequence) is Ok && w.cell() == old(
                    hub,
                )@.groups.len() && w.spec_sequence() == sequence,
                Err(e) => old(hub)@.track_admits(self.cell(), sequence) == Err::<(), Closed>(e),
            },
    {
        hub.append_group(self.cell, sequence)
    }

    /// Closes the track with the application's `code`. The answer is `Ok`
    /// exactly when this call closed the track.
    pub fn close(&self, hub: &mut Hub, code: u32) -> (r: Result<(), Closed>)
        requires
            old(hub).wf(),
        ensures
            final(hub).wf(),
            final(hub)@ == old(hub)@.close_track(self.cell(), Closed::App(code)),
            r == old(hub)@.track_status(self.cell()),
    {
        hub.close_track(self.cell, Closed::App(code))
    }

    /// Gives the track up: an open track is closed with `Done`.
    pub fn finish(self, hub: &mut Hub)
        requires
            old(hub).wf(),
        ensures
            final(hub).wf(),
            final(hub)@ == old(hub)@.close_track(self.cell(), Closed::Done),
    {
        let _ = hub.close_track(self.cell, Closed::Done);
    }

    /// A consumer of the same track that starts at its first group.
    pub fn subscribe(&self) -> (r: TrackReader)
        ensures
            r.cell() == self.cell(),
            r.cursor() == 0,
            r.spec_info() == self.spec_info(),
    {
        TrackReader { info: self.info.clone(), cell: self.cell, cursor: 0 }
    }
}

impl Clone for TrackReader {
    fn clone(&self) -> (r: TrackReader)
        ensures
            r.cell() == self.cell(),
            r.cursor() == self.cursor(),
            r.spec_info() == self.spec_info(),
    {
        TrackReader { info: self.info.clone(), cell: self.cell, cursor: self.cursor }
    }
}

impl TrackReader {
    /// The consuming handle on the track cell `cell` that starts at its
    /// first group.
    pub(crate) fn attach(info: Track, cell: usize) -> (r: TrackReader)
        ensures
            r.cell() == cell,
            r.cursor() == 0,
            r.spec_info() == info@,
    {
        TrackReader { info, cell, cursor: 0 }
    }

    /// The cell of the hub that holds the track.
    pub closed spec fn cell(&self) -> nat {
        self.cell as nat
    }

    /// Number of groups passed so far.
    pub closed spec fn cursor(&self) -> nat {
        self.cursor as nat
    }

    /// The static information.
    pub closed spec fn spec_info(&self) -> TrackInfo {
        self.info@
    }

    /// The static information.
    pub fn info(&self) -> (i: &Track)
        ensures
            i@ == self.spec_info(),
    {
        &self.info
    }

    /// The number of the cell.
    pub fn id(&self) -> (c: usize)
        ensures
            c == self.cell(),
    {
        self.cell
    }

    /// The next group in the order of appending. `Ready(Ok(Some(..)))`
    /// hands out a consumer of the group at this consumer's place, set at
    /// the group's first frame, and moves the place on by one;
    /// `Ready(Ok(None))` is the clean end and `Ready(Err(..))` the closure
    /// of the track, both only after every group was handed out; `Pending`
    /// says that the track is open and has no group at this place yet. A
    /// handle that names no cell of this hub is told `Cancel`.
    pub fn next_group(&mut self, hub: &Hub) -> (r: Poll<Result<Option<GroupReader>, Closed>>)
        ensures
            final(self).cell() == old(self).cell(),
            final(self).spec_info() == old(self).spec_info(),
            match r {
                Poll::Ready(Ok(Some(g))) => hub@.poll_next_group(old(self).cell(), old(self).cursor())
                    == Poll::Ready(
                    Ok::<Option<(u64, nat)>, Closed>(Some((g.spec_sequence(), g.cell()))),
                ) && g.index() == 0 && final(self).cursor() == old(self).cursor() + 1,
                Poll::Ready(Ok(None)) => hub@.poll_next_group(old(self).cell(), old(self).cursor())
                    == Poll::Ready(Ok::<Option<(u64, nat)>, Closed>(None)) && final(self).cursor()
                    == old(self).cursor(),
                Poll::Ready(Err(e)) => hub@.poll_next_group(old(self).cell(), old(self).cursor())
                    == Poll::Ready(Err::<Option<(u64, nat)>, Closed>(e)) && final(self).cursor()
                    == old(self).cursor(),
                Poll::Pending => hub@.poll_next_group(old(self).cell(), old(self).cursor())
                    == Poll::<Result<Option<(u64, nat)>, Closed>>::Pending && final(self).cursor()
                    == old(self).cursor(),
            },
    {
        let r = hub.poll_next_group(self.cell, self.cursor);
        if let Poll::Ready(Ok(Some(_))) = &r {
            self.cursor = self.cursor + 1;
        }
        r
    }

    /// The newest group, passing over every group between this consumer's
    /// place and the newest. `Ready(Ok(Some(..)))` hands out a consumer of
    /// the last group appended and moves the place behind it; the other
    /// answers are those of `next_group`.
    pub fn latest_group(&mut self, hub: &Hub) -> (r: Poll<Result<Option<GroupReader>, Closed>>)
        ensures
            final(self).cell() == old(self).cell(),
            final(self).spec_info() == old(self).spec_info(),
            match r {
                Poll::Ready(Ok(Some(g))) => hub@.poll_latest_group(
                    old(self).cell(),
                    old(self).cursor(),
                ) == Poll::Ready(
                    Ok::<Option<(u64, nat)>, Closed>(Some((g.spec_sequence(), g.cell()))),
                ) && g.index() == 0 && final(self).cursor() == hub@.group_count(old(self).cell()),
                Poll::Ready(Ok(None)) => hub@.poll_latest_group(old(self).cell(), old(self).cursor())
                    == Poll::Ready(Ok::<Option<(u64, nat)>, Closed>(None)) && final(self).cursor()
                    == old(self).cursor(),
                Poll::Ready(Err(e)) => hub@.poll_latest_group(old(self).cell(), old(self).cursor())
                    == Poll::Ready(Err::<Option<(u64, nat)>, Closed>(e)) && final(self).cursor()
                    == old(self).cursor(),
                Poll::Pending => hub@.poll_latest_group(old(self).cell(), old(self).cursor())
                    == Poll::<Result<Option<(u64, nat)>, Closed>>::Pending && final(self).cursor()
                    == old(self).cursor(),
            },
    {
        let r = hub.poll_latest_group(self.cell, self.cursor);
        if let Poll::Ready(Ok(Some(_))) = &r {
            self.cursor = hub.group_count(self.cell);
        }
        r
    }

    /// How many groups the track holds that this consumer has not passed
    /// yet: the measure by which a consumer that has fallen behind is
    /// found.
    pub fn lag(&self, hub: &Hub) -> (n: usize)
        ensures
            n == HubView::behind(hub@.group_count(self.cell()), self.cursor()),
    {
        let count = hub.group_count(self.cell);
        if self.cursor < count {
            count - self.cursor
        } else {
            0
        }
    }

    /// Whether and why the track is closed: `Pending` while it is open,
    /// else the closure. A handle that names no cell of this hub is told
    /// `Cancel`.
    pub fn closed(&self, hub: &Hub) -> (r: Poll<Closed>)
        ensures
            match r {
                Poll::Pending => hub@.track_status(self.cell()) is Ok,
                Poll::Ready(e) => hub@.track_status(self.cell()) == Err::<(), Closed>(e),
            },
    {
        match hub.track_status(self.cell) {
            Ok(_) => Poll::Pending,
            Err(e) => Poll::Ready(e),
        }
    }
}

} // verus!
