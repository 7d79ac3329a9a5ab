//! A group: an append-only run of frames with a sequence number, and the
//! two handles on it.
use vstd::prelude::*;

use crate::error::Closed;
use crate::model::frame::Frame;
use crate::model::hub::Hub;
use crate::model::hub::HubView;

verus! {

/// What a consumer learns when it asks for the next item.
#[derive(Debug, PartialEq, Eq)]
pub enum Poll<T> {
    /// Nothing new yet: ask again after the hub has changed.
    Pending,
    /// The answer.
    Ready(T),
}

/// What a group cell holds, as plain values.
pub struct GroupView {
    pub sequence: u64,
    pub frames: Seq<Seq<u8>>,
    pub closed: Result<(), Closed>,
}

impl GroupView {
    /// A fresh group.
    pub open spec fn start(sequence: u64) -> GroupView {
        GroupView { sequence, frames: Seq::empty(), closed: Ok(()) }
    }

    /// The group after `bytes` was offered: appended while the group is
    /// open, ignored once it is closed.
    pub open spec fn append(self, bytes: Seq<u8>) -> GroupView {
        if self.closed is Ok {
            GroupView { frames: self.frames.push(bytes), ..self }
        } else {
            self
        }
    }

    /// The group after it was closed with `reason`: the first closure
    /// stays.
    pub open spec fn close(self, reason: Closed) -> GroupView {
        if self.closed is Ok {
            GroupView { closed: Err(reason), ..self }
        } else {
            self
        }
    }

    /// The group after each frame of `all` was offered in turn.
    pub open spec fn append_all(self, all: Seq<Seq<u8>>) -> GroupView
        decreases all.len(),
    {
        if all.len() == 0 {
            self
        } else {
            self.append_all(all.drop_last()).append(all.last())
        }
    }

    /// What a consumer that has taken `index` frames is told next: the
    /// frame at `index` if there is one; else, once the group is closed,
    /// the clean end or the error; else to wait.
    pub open spec fn poll(self, index: nat) -> Poll<Result<Option<Seq<u8>>, Closed>> {
        if index < self.frames.len() {
            Poll::Ready(Ok(Some(self.frames[index as int])))
        } else {
            match self.closed {
                Ok(()) => Poll::Pending,
                Err(Closed::Done) => Poll::Ready(Ok(None)),
                Err(e) => Poll::Ready(Err(e)),
            }
        }
    }
}

/// Frames are handed out in the order in which they were appended, and
/// the answer for a place does not depend on when the consumer asks: once
/// `count` frames of `all` have been appended to a fresh group, with `count`
/// above `n`, a consumer that has taken `n` frames is handed the frame
/// `all[n]`, however many more have been appended by then.
pub proof fn lemma_frames_in_append_order(sequence: u64, all: Seq<Seq<u8>>, n: nat, count: nat)
    requires
        n < count <= all.len(),
    ensures
        GroupView::start(sequence).append_all(all.take(count as int)).poll(n) == Poll::Ready(
            Ok::<Option<Seq<u8>>, Closed>(Some(all[n as int])),
        ),
{
    lemma_append_all_open(GroupView::start(sequence), all.take(count as int));
    assert(Seq::<Seq<u8>>::empty() + all.take(count as int) =~= all.take(count as int));
}

/// Offering frames to an open group appends all of them and leaves the
/// group open.
pub proof fn lemma_append_all_open(g: GroupView, all: Seq<Seq<u8>>)
    requires
        g.closed is Ok,
    ensures
        g.append_all(all) == (GroupView { frames: g.frames + all, ..g }),
    decreases all.len(),
{
    if all.len() == 0 {
        assert(g.frames + all =~= g.frames);
    } else {
        lemma_append_all_open(g, all.drop_last());
        assert((g.frames + all.drop_last()).push(all.last()) =~= g.frames + all);
    }
}

/// Appending never changes what a consumer was or will be handed for a
/// place that is already filled.
pub proof fn lemma_append_keeps_frames(g: GroupView, bytes: Seq<u8>, n: nat)
    requires
        n < g.frames.len(),
    ensures
        g.append(bytes).poll(n) == g.poll(n),
{
}

/// The shared state of one group.
pub struct GroupState {
    sequence: u64,
    frames: Vec<Frame>,
    closed: Result<(), Closed>,
}

impl View for GroupState {
    type V = GroupView;

    closed spec fn view(&self) -> GroupView {
        GroupView {
            sequence: self.sequence,
            frames: Seq::new(self.frames@.len(), |i: int| self.frames@[i]@),
            closed: self.closed,
        }
    }
}

impl GroupState {
    /// A fresh group with the given sequence number.
    pub fn new(sequence: u64) -> (g: GroupState)
        ensures
            g@ == GroupView::start(sequence),
    {
        let g = GroupState { sequence, frames: Vec::new(), closed: Ok(()) };
        assert(g@.frames =~= Seq::<Seq<u8>>::empty());
        g
    }

    /// The sequence number.
    pub fn sequence(&self) -> (s: u64)
        ensures
            s == self@.sequence,
    {
        self.sequence
    }

    /// Whether and why the group is closed.
    pub fn closed(&self) -> (c: Result<(), Closed>)
        ensures
            c == self@.closed,
    {
        self.closed
    }

    /// Number of frames appended so far.
    pub fn len(&self) -> (n: usize)
        ensures
            n == self@.frames.len(),
    {
        self.frames.len()
    }

    /// Appends `frame` while the group is open; a closed group stays as it
    /// is and answers with its closure.
    pub fn append_frame(&mut self, frame: Frame) -> (r: Result<(), Closed>)
        ensures
            final(self)@ == old(self)@.append(frame@),
            r == old(self)@.closed,
    {
        let status = self.closed;
        if status.is_ok() {
            self.frames.push(frame);
            assert(self@.frames =~= old(self)@.frames.push(frame@));
        }
        status
    }

    /// Closes the group with `reason` while it is open; a closed group stays
    /// as it is and answers with its closure.
    pub fn close(&mut self, reason: Closed) -> (r: Result<(), Closed>)
        ensures
            final(self)@ == old(self)@.close(reason),
            r == old(self)@.closed,
    {
        let status = self.closed;
        if status.is_ok() {
            self.closed = Err(reason);
            assert(self@.frames =~= old(self)@.frames);
        }
        status
    }

    /// What a consumer that has taken `index` frames is told next.
    pub fn poll(&self, index: usize) -> (r: Poll<Result<Option<Frame>, Closed>>)
        ensures
            match r {
                Poll::Ready(Ok(Some(f))) => self@.poll(index as nat) == Poll::Ready(
                    Ok::<Option<Seq<u8>>, Closed>(Some(f@)),
                ) && index < usize::MAX,
                Poll::Ready(Ok(None)) => self@.poll(index as nat) == Poll::Ready(
                    Ok::<Option<Seq<u8>>, Closed>(None),
                ),
                Poll::Ready(Err(e)) => self@.poll(index as nat) == Poll::Ready(
                    Err::<Option<Seq<u8>>, Closed>(e),
                ),
                Poll::Pending => self@.poll(index as nat) == Poll::<
                    Result<Option<Seq<u8>>, Closed>,
                >::Pending,
            },
    {
        if index < self.frames.len() {
            Poll::Ready(Ok(Some(self.frames[index].clone())))
        } else {
            match self.closed {
                Ok(()) => Poll::Pending,
                Err(Closed::Done) => Poll::Ready(Ok(None)),
                Err(e) => Poll::Ready(Err(e)),
            }
        }
    }
}

/// The producing handle on a group.
#[derive(Debug)]
pub struct GroupWriter {
    sequence: u64,
    cell: usize,
}

/// The consuming handle on a group: the cell and the number of frames
/// taken so far.
#[derive(Debug)]
pub struct GroupReader {
    sequence: u64,
    cell: usize,
    index: usize,
}

impl GroupWriter {
    pub(crate) fn attach(sequence: u64, cell: usize) -> (w: GroupWriter)
        ensures
            w.cell() == cell,
            w.spec_sequence() == sequence,
    {
        GroupWriter { sequence, cell }
    }

    /// The sequence number of the group within its track.
    pub closed spec fn spec_sequence(&self) -> u64 {
        self.sequence
    }

    /// The sequence number of the group within its track.
    #[verifier::when_used_as_spec(spec_sequence)]
    pub fn sequence(&self) -> (s: u64)
        ensures
            s == self.spec_sequence(),
    {
        self.sequence
    }

    /// The cell of the hub that holds the group.
    pub closed spec fn cell(&self) -> nat {
        self.cell as nat
    }

    /// Appends a frame that holds `bytes`. The answer is `Ok` exactly when
    /// the frame was appended: a closed group answers with its closure, a
    /// handle that names no cell of this hub with `Cancel`.
    pub fn append_frame(&self, hub: &mut Hub, bytes: Vec<u8>) -> (r: Result<(), Closed>)
        requires
            old(hub).wf(),
        ensures
            final(hub).wf(),
            final(hub)@ == old(hub)@.append_frame(self.cell(), bytes@),
            r == old(hub)@.group_status(self.cell()),
    {
        hub.append_frame(self.cell, Frame::new(bytes))
    }

    /// Marks the group complete: no more frames. The answer is `Ok` exactly
    /// when this call closed the group.
    pub fn finish(&self, hub: &mut Hub) -> (r: Result<(), Closed>)
        requires
            old(hub).wf(),
        ensures
            final(hub).wf(),
            final(hub)@ == old(hub)@.close_group(self.cell(), Closed::Done),
            r == old(hub)@.group_status(self.cell()),
    {
        hub.close_group(self.cell, Closed::Done)
    }

    /// Marks the group failed with the application's `code`. The answer is
    /// `Ok` exactly when this call closed the group.
    pub fn abort(&self, hub: &mut Hub, code: u32) -> (r: Result<(), Closed>)
        requires
            old(hub).wf(),
        ensures
            final(hub).wf(),
            final(hub)@ == old(hub)@.close_group(self.cell(), Closed::App(code)),
            r == old(hub)@.group_status(self.cell()),
    {
        hub.close_group(self.cell, Closed::App(code))
    }

    /// A consumer of the same group that starts at the first frame.
    pub fn subscribe(&self) -> (r: GroupReader)
        ensures
            r.cell() == self.cell(),
            r.index() == 0,
            r.spec_sequence() == self.spec_sequence(),
    {
        GroupReader { sequence: self.sequence, cell: self.cell, index: 0 }
    }
}

impl Clone for GroupReader {
    fn clone(&self) -> (r: GroupReader)
        ensures
            r == *self,
    {
        GroupReader { sequence: self.sequence, cell: self.cell, index: self.index }
    }
}

impl GroupReader {
    pub(crate) fn attach(sequence: u64, cell: usize) -> (r: GroupReader)
        ensures
            r.cell() == cell,
            r.index() == 0,
            r.spec_sequence() == sequence,
    {
        GroupReader { sequence, cell, index: 0 }
    }

    /// The sequence number of the group within its track.
    pub closed spec fn spec_sequence(&self) -> u64 {
        self.sequence
    }

    /// The sequence number of the group within its track.
    #[verifier::when_used_as_spec(spec_sequence)]
    pub fn sequence(&self) -> (s: u64)
        ensures
            s == self.spec_sequence(),
    {
        self.sequence
    }

    /// The cell of the hub that holds the group.
    pub closed spec fn cell(&self) -> nat {
        self.cell as nat
    }

    /// Number of frames taken so far.
    pub closed spec fn index(&self) -> nat {
        self.index as nat
    }

    /// How many frames the group holds that this consumer has not taken
    /// yet.
    pub fn lag(&self, hub: &Hub) -> (n: usize)
        ensures
            n == HubView::behind(hub@.frame_count(self.cell()), self.index()),
    {
        let count = hub.frame_count(self.cell);
        if self.index < count {
            count - self.index
        } else {
            0
        }
    }

    /// The next frame in append order. `Ready(Ok(Some(..)))` hands out the
    /// frame at this consumer's place and moves the place on by one;
    /// `Ready(Ok(None))` is the clean end, `Ready(Err(..))` the stored
    /// error of an aborted group, both only after every frame was handed
    /// out; `Pending` says that the group is open and has no frame at this
    /// place yet. A handle that names no cell of this hub is told `Cancel`.
    pub fn next_frame(&mut self, hub: &Hub) -> (r: Poll<Result<Option<Frame>, Closed>>)
        ensures
            final(self).cell() == old(self).cell(),
            final(self).spec_sequence() == old(self).spec_sequence(),
            match r {
                Poll::Ready(Ok(Some(f))) => hub@.poll_group(old(self).cell(), old(self).index())
                    == Poll::Ready(Ok::<Option<Seq<u8>>, Closed>(Some(f@))) && final(self).index()
                    == old(self).index() + 1,
                Poll::Ready(Ok(None)) => hub@.poll_group(old(self).cell(), old(self).index())
                    == Poll::Ready(Ok::<Option<Seq<u8>>, Closed>(None)) && final(self).index()
                    == old(self).index(),
                Poll::Ready(Err(e)) => hub@.poll_group(old(self).cell(), old(self).index())
                    == Poll::Ready(Err::<Option<Seq<u8>>, Closed>(e)) && final(self).index() == old(
                    self,
                ).index(),
                Poll::Pending => hub@.poll_group(old(self).cell(), old(self).index()) == Poll::<
                    Result<Option<Seq<u8>>, Closed>,
                >::Pending && final(self).index() == old(self).index(),
            },
    {
        let r = hub.poll_group(self.cell, self.index);
        if let Poll::Ready(Ok(Some(_))) = &r {
            self.index = self.index + 1;
        }
        r
    }
}

} // verus!
