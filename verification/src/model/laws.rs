//! What holds of a hub across every sequence of changes: cells only grow,
//! a closed cell never changes again, and consumers are handed frames and
//! groups in one fixed order.
use vstd::prelude::*;

use crate::error::Closed;
use crate::model::broadcast::BroadcastView;
use crate::model::broadcast::UnknownReader;
use crate::model::group::GroupView;
use crate::model::group::Poll;
use crate::model::hub::lemma_append_group_wf;
use crate::model::hub::lemma_close_track_wf;
use crate::model::hub::lemma_insert_track_wf;
use crate::model::hub::lemma_remove_track_wf;
use crate::model::hub::HubView;
use crate::model::track::TrackInfo;
use crate::model::track::TrackView;

verus! {

/// One change that a producer can make to a hub.
pub enum Step {
    AppendFrame { group: nat, bytes: Seq<u8> },
    CloseGroup { group: nat, reason: Closed },
    AppendGroup { track: nat, sequence: u64 },
    CloseTrack { track: nat, reason: Closed },
    Produce,
    InsertTrack { broadcast: nat, info: TrackInfo },
    RemoveTrack { broadcast: nat, name: Seq<char> },
    SetUnknown { broadcast: nat, reader: UnknownReader },
    CloseBroadcast { broadcast: nat, reason: Closed },
}

impl GroupView {
    /// `self` is a later state of the group `earlier`: the same sequence
    /// number, the same frames in front, and no change at all once
    /// `earlier` was closed.
    pub open spec fn extends(self, earlier: GroupView) -> bool {
        &&& self.sequence == earlier.sequence
        &&& earlier.frames.len() <= self.frames.len()
        &&& forall|i: int| 0 <= i < earlier.frames.len() ==> self.frames[i] == earlier.frames[i]
        &&& earlier.closed is Err ==> self == earlier
    }
}

impl TrackView {
    /// `self` is a later state of the track `earlier`: the same
    /// information, the same groups in front, and no change at all once
    /// `earlier` was closed.
    pub open spec fn extends(self, earlier: TrackView) -> bool {
        &&& self.info == earlier.info
        &&& earlier.groups.len() <= self.groups.len()
        &&& forall|i: int| 0 <= i < earlier.groups.len() ==> self.groups[i] == earlier.groups[i]
        &&& earlier.closed is Err ==> self == earlier
    }
}

impl BroadcastView {
    /// `self` is a later state of the broadcast `earlier`: no change at
    /// all once `earlier` was closed.
    pub open spec fn extends(self, earlier: BroadcastView) -> bool {
        earlier.closed is Err ==> self == earlier
    }
}

impl HubView {
    /// The hub after the change `s`.
    pub open spec fn step(self, s: Step) -> HubView {
        match s {
            Step::AppendFrame { group, bytes } => self.append_frame(group, bytes),
            Step::CloseGroup { group, reason } => self.close_group(group, reason),
            Step::AppendGroup { track, sequence } => self.append_group(track, sequence),
            Step::CloseTrack { track, reason } => self.close_track(track, reason),
            Step::Produce => self.produce(),
            Step::InsertTrack { broadcast, info } => self.insert_track(broadcast, info),
            Step::RemoveTrack { broadcast, name } => self.remove_track(broadcast, name),
            Step::SetUnknown { broadcast, reader } => self.set_unknown(broadcast, reader),
            Step::CloseBroadcast { broadcast, reason } => self.close_broadcast(broadcast, reason),
        }
    }

    /// The hub after the changes `steps`, first to last.
    pub open spec fn run(self, steps: Seq<Step>) -> HubView
        decreases steps.len(),
    {
        if steps.len() == 0 {
            self
        } else {
            self.run(steps.drop_last()).step(steps.last())
        }
    }

    /// `self` is a later state of the hub `earlier`: every cell of
    /// `earlier` is still there, under the same number, in a later state
    /// of its own.
    pub open spec fn extends(self, earlier: HubView) -> bool {
        &&& earlier.groups.len() <= self.groups.len()
        &&& earlier.tracks.len() <= self.tracks.len()
        &&& earlier.broadcasts.len() <= self.broadcasts.len()
        &&& forall|g: int|
            0 <= g < earlier.groups.len() ==> (#[trigger] self.groups[g]).extends(earlier.groups[g])
        &&& forall|t: int|
            0 <= t < earlier.tracks.len() ==> (#[trigger] self.tracks[t]).extends(earlier.tracks[t])
        &&& forall|b: int|
            0 <= b < earlier.broadcasts.len() ==> (#[trigger] self.broadcasts[b]).extends(
                earlier.broadcasts[b],
            )
    }

    /// What one call of a consumer of the track cell `t` at the place
    /// `cursor` hands out, if it hands out a group: the group's sequence
    /// number and the consumer's place after the call. With `latest` the
    /// call is `latest_group`, else `next_group`.
    pub open spec fn handed(self, t: nat, cursor: nat, latest: bool) -> Option<(u64, nat)> {
        let polled = if latest {
            self.poll_latest_group(t, cursor)
        } else {
            self.poll_next_group(t, cursor)
        };
        match polled {
            Poll::Ready(Ok(Some(group))) => Some(
                (
                    group.0,
                    if latest {
                        self.group_count(t)
                    } else {
                        cursor + 1
                    },
                ),
            ),
            _ => None,
        }
    }
}

/// Every change keeps the hub consistent and leaves a later state of it.
pub proof fn lemma_step(h: HubView, s: Step)
    requires
        h.wf(),
    ensures
        h.step(s).wf(),
        h.step(s).extends(h),
{
    let z = h.step(s);
    match s {
        Step::AppendFrame { group, bytes } => {
            lemma_cells_kept(h, z);
        },
        Step::CloseGroup { group, reason } => {
            lemma_cells_kept(h, z);
        },
        Step::AppendGroup { track, sequence } => {
            lemma_append_group_wf(h, track, sequence);
        },
        Step::CloseTrack { track, reason } => {
            lemma_close_track_wf(h, track, reason);
        },
        Step::Produce => {
            assert forall|t: int| 0 <= t < z.tracks.len() implies #[trigger] z.track_linked(t) by {
                assert(h.track_linked(t));
            }
            assert forall|b: int| 0 <= b < z.broadcasts.len() implies #[trigger] z.broadcast_linked(
                b,
            ) by {
                if b < h.broadcasts.len() {
                    assert(h.broadcast_linked(b));
                }
            }
        },
        Step::InsertTrack { broadcast, info } => {
            lemma_insert_track_wf(h, broadcast, info);
            if h.broadcast_writable(broadcast) is Ok {
                assert(h.broadcast_linked(broadcast as int));
            }
        },
        Step::RemoveTrack { broadcast, name } => {
            lemma_remove_track_wf(h, broadcast, name);
        },
        Step::SetUnknown { broadcast, reader } => {
            lemma_cells_kept(h, z);
        },
        Step::CloseBroadcast { broadcast, reason } => {
            lemma_cells_kept(h, z);
        },
    }
}

/// A change that keeps the number of cells, the sequence number of every
/// group, and every track and every list of tracks keeps the hub consistent.
proof fn lemma_cells_kept(a: HubView, z: HubView)
    requires
        a.wf(),
        z.tracks == a.tracks,
        z.groups.len() == a.groups.len(),
        z.broadcasts.len() == a.broadcasts.len(),
        forall|g: int|
            0 <= g < a.groups.len() ==> (#[trigger] z.groups[g]).sequence == a.groups[g].sequence,
        forall|b: int|
            0 <= b < a.broadcasts.len() ==> (#[trigger] z.broadcasts[b]).tracks
                == a.broadcasts[b].tracks,
    ensures
        z.wf(),
{
    assert forall|t: int| 0 <= t < z.tracks.len() implies #[trigger] z.track_linked(t) by {
        assert(a.track_linked(t));
    }
    assert forall|b: int| 0 <= b < z.broadcasts.len() implies #[trigger] z.broadcast_linked(b) by {
        assert(a.broadcast_linked(b));
    }
}

/// A later state of a later state is a later state.
pub proof fn lemma_extends_transitive(a: HubView, b: HubView, c: HubView)
    requires
        b.extends(a),
        c.extends(b),
    ensures
        c.extends(a),
{
    assert forall|g: int| 0 <= g < a.groups.len() implies (#[trigger] c.groups[g]).extends(
        a.groups[g],
    ) by {
        assert(b.groups[g].extends(a.groups[g]));
        assert(c.groups[g].extends(b.groups[g]));
    }
    assert forall|t: int| 0 <= t < a.tracks.len() implies (#[trigger] c.tracks[t]).extends(
        a.tracks[t],
    ) by {
        assert(b.tracks[t].extends(a.tracks[t]));
        assert(c.tracks[t].extends(b.tracks[t]));
    }
    assert forall|x: int| 0 <= x < a.broadcasts.len() implies (#[trigger] c.broadcasts[x]).extends(
        a.broadcasts[x],
    ) by {
        assert(b.broadcasts[x].extends(a.broadcasts[x]));
        assert(c.broadcasts[x].extends(b.broadcasts[x]));
    }
}

/// Groups, tracks and broadcasts are append-only, and closure is terminal:
/// whatever changes are made, the hub stays consistent, every cell keeps
/// what it held in the order in which it held it, and a closed cell is
/// never changed again.
pub proof fn lemma_run(h: HubView, steps: Seq<Step>)
    requires
        h.wf(),
    ensures
        h.run(steps).wf(),
        h.run(steps).extends(h),
    decreases steps.len(),
{
    if steps.len() > 0 {
        let mid = h.run(steps.drop_last());
        lemma_run(h, steps.drop_last());
        lemma_step(mid, steps.last());
        lemma_extends_transitive(h, mid, mid.step(steps.last()));
    }
}

/// Every consumer of a group observes the same frames at the same places:
/// once the group holds a frame at place `n`, a consumer that asks at that
/// place is handed that very frame, whenever it attached and whatever was
/// appended, finished or aborted in between.
pub proof fn lemma_frames_are_stable(h: HubView, steps: Seq<Step>, g: nat, n: nat)
    requires
        h.wf(),
        g < h.groups.len(),
        n < h.groups[g as int].frames.len(),
    ensures
        h.run(steps).poll_group(g, n) == h.poll_group(g, n),
        h.poll_group(g, n) == Poll::Ready(
            Ok::<Option<Seq<u8>>, Closed>(Some(h.groups[g as int].frames[n as int])),
        ),
{
    lemma_run(h, steps);
    assert(h.run(steps).groups[g as int].extends(h.groups[g as int]));
}

/// The groups that a consumer of a track is handed have strictly
/// increasing sequence numbers, whether it asks for the next or for the
/// newest group, and whatever changes are made between two calls.
pub proof fn lemma_group_sequences_increase(
    h: HubView,
    steps: Seq<Step>,
    t: nat,
    first_cursor: nat,
    first_latest: bool,
    second_cursor: nat,
    second_latest: bool,
)
    requires
        h.wf(),
        h.handed(t, first_cursor, first_latest) is Some,
        second_cursor >= h.handed(t, first_cursor, first_latest)->Some_0.1,
        h.run(steps).handed(t, second_cursor, second_latest) is Some,
    ensures
        h.handed(t, first_cursor, first_latest)->Some_0.0 < h.run(steps).handed(
            t,
            second_cursor,
            second_latest,
        )->Some_0.0,
{
    let z = h.run(steps);
    lemma_run(h, steps);
    let before = h.tracks[t as int].groups;
    let after = z.tracks[t as int].groups;
    assert(z.tracks[t as int].extends(h.tracks[t as int]));
    assert(z.track_linked(t as int));
    let i: int = if first_latest {
        before.len() - 1
    } else {
        first_cursor as int
    };
    let j: int = if second_latest {
        after.len() - 1
    } else {
        second_cursor as int
    };
    assert(after[i] == before[i]);
    assert(after[i].0 < after[j].0);
}

/// Giving up an open broadcast makes every later question after its
/// closure answer `Done`, and nothing that happens afterwards changes that
/// answer.
pub proof fn lemma_finish_resolves_done(h: HubView, steps: Seq<Step>, b: nat)
    requires
        h.wf(),
        h.broadcast_status(b) is Ok,
    ensures
        h.close_broadcast(b, Closed::Done).run(steps).broadcast_status(b) == Err::<(), Closed>(
            Closed::Done,
        ),
{
    let closed = h.close_broadcast(b, Closed::Done);
    lemma_step(h, Step::CloseBroadcast { broadcast: b, reason: Closed::Done });
    lemma_run(closed, steps);
    assert(closed.run(steps).broadcasts[b as int].extends(closed.broadcasts[b as int]));
}

/// Closure is terminal for every kind of cell: a closure that a group, a
/// track or a broadcast once has is the one it has after any changes.
pub proof fn lemma_closure_is_terminal(h: HubView, steps: Seq<Step>, cell: nat)
    requires
        h.wf(),
    ensures
        h.group_status(cell) is Err && cell < h.groups.len() ==> h.run(steps).group_status(cell)
            == h.group_status(cell),
        h.track_status(cell) is Err && cell < h.tracks.len() ==> h.run(steps).track_status(cell)
            == h.track_status(cell),
        h.broadcast_status(cell) is Err && cell < h.broadcasts.len() ==> h.run(
            steps,
        ).broadcast_status(cell) == h.broadcast_status(cell),
{
    lemma_run(h, steps);
    let z = h.run(steps);
    if cell < h.groups.len() {
        assert(z.groups[cell as int].extends(h.groups[cell as int]));
    }
    if cell < h.tracks.len() {
        assert(z.tracks[cell as int].extends(h.tracks[cell as int]));
    }
    if cell < h.broadcasts.len() {
        assert(z.broadcasts[cell as int].extends(h.broadcasts[cell as int]));
    }
}

} // verus!
