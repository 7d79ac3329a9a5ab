//! Group streams: one unidirectional stream per group. Behind the header
//! each frame travels as length-prefixed octets. The end of the stream is
//! the end of the group: a finished stream finishes it, a reset stream
//! aborts it with the code of the reset.
use vstd::prelude::*;

use crate::coding::bytes::decode_bytes_at;
use crate::coding::bytes::encode_bytes;
use crate::coding::bytes::lemma_bytes_round_trip;
use crate::coding::bytes::spec_decode_bytes;
use crate::coding::bytes::spec_encode_bytes;
use crate::coding::varint::VARINT_MAX;
use crate::error::Closed;
use crate::model::group::GroupReader;
use crate::model::group::GroupWriter;
use crate::model::group::Poll;
use crate::model::hub::Hub;
use crate::session::header::GroupHeader;
use crate::session::Session;

verus! {

/// How a stream ended.
#[derive(Clone, Copy, Debug, PartialEq, Eq, Structural)]
pub enum StreamEnd {
    /// The sender finished the stream.
    Finished,
    /// The sender reset the stream with the code.
    Reset(u32),
}

/// What the sender of a group stream does next.
#[derive(Clone, Copy, Debug, PartialEq, Eq, Structural)]
pub enum Chunk {
    /// Write the bytes that were appended to the buffer.
    Data,
    /// Finish the stream: the group is complete.
    Finish,
    /// Reset the stream with the code: the group failed.
    Reset(u32),
}

/// The frames `frames`, each as length-prefixed octets, one after the
/// other.
pub open spec fn spec_encode_frames(frames: Seq<Seq<u8>>) -> Seq<u8>
    decreases frames.len(),
{
    if frames.len() == 0 {
        Seq::empty()
    } else {
        spec_encode_bytes(frames[0]) + spec_encode_frames(frames.skip(1))
    }
}

/// Reads whole frames from the front of `s` for as long as there are any:
/// the frames, and what is left, which is empty or the beginning of one
/// more frame.
pub open spec fn spec_decode_frames(s: Seq<u8>) -> (Seq<Seq<u8>>, Seq<u8>)
    decreases s.len(),
{
    match spec_decode_bytes(s) {
        Err(_) => (Seq::empty(), s),
        Ok((frame, rest)) => if rest.len() < s.len() {
            let (more, left) = spec_decode_frames(rest);
            (seq![frame] + more, left)
        } else {
            (Seq::empty(), s)
        },
    }
}

/// Reading the frames of an encoded run gives the frames back and leaves
/// nothing.
pub proof fn lemma_frames_round_trip(frames: Seq<Seq<u8>>)
    requires
        forall|i: int| 0 <= i < frames.len() ==> (#[trigger] frames[i]).len() <= VARINT_MAX,
    ensures
        spec_decode_frames(spec_encode_frames(frames)) == (frames, Seq::<u8>::empty()),
    decreases frames.len(),
{
    if frames.len() == 0 {
        assert(spec_decode_bytes(Seq::<u8>::empty()) is Err);
    } else {
        let tail = spec_encode_frames(frames.skip(1));
        lemma_bytes_round_trip(frames[0], tail);
        assert(spec_encode_bytes(frames[0]).len() > 0);
        assert forall|i: int| 0 <= i < frames.skip(1).len() implies (#[trigger] frames.skip(
            1,
        )[i]).len() <= VARINT_MAX by {
            assert(frames.skip(1)[i] == frames[i + 1]);
        }
        lemma_frames_round_trip(frames.skip(1));
        assert(seq![frames[0]] + frames.skip(1) =~= frames);
    }
}

/// The header of the stream that carries the group of `group` for a
/// subscription served under `alias`, sent with `priority`.
pub fn stream_header(alias: u64, group: &GroupReader, priority: u64) -> (h: GroupHeader)
    ensures
        h == (GroupHeader { alias, sequence: group.spec_sequence(), priority }),
{
    GroupHeader { alias, sequence: group.sequence(), priority }
}

/// The sender's next step on the stream of a group. A frame that the group
/// holds at the consumer's place is appended to `out` as length-prefixed
/// octets, and the consumer moves on: `Data`. After the last frame of a
/// finished group the step is `Finish`; where the group failed, or the
/// handle names no cell of this hub, it is `Reset` with the code of the
/// closure. `Pending` says that the group is open and has no frame at this
/// place yet. A frame of more than 2^62 - 1 bytes cannot travel: the step
/// is `Reset` with the code of `Cancel`, and the consumer has moved on.
pub fn pull(hub: &Hub, group: &mut GroupReader, out: &mut Vec<u8>) -> (r: Poll<Chunk>)
    ensures
        final(group).cell() == old(group).cell(),
        match hub@.poll_group(old(group).cell(), old(group).index()) {
            Poll::Ready(Ok(Some(bytes))) => final(group).index() == old(group).index() + 1 && (
            if bytes.len() <= VARINT_MAX {
                r == Poll::Ready(Chunk::Data) && final(out)@ == old(out)@ + spec_encode_bytes(bytes)
            } else {
                r == Poll::Ready(Chunk::Reset(Closed::Cancel.spec_code())) && final(out)@ == old(out)@
            }),
            Poll::Ready(Ok(None)) => r == Poll::Ready(Chunk::Finish) && final(out)@ == old(out)@
                && final(group).index() == old(group).index(),
            Poll::Ready(Err(e)) => r == Poll::Ready(Chunk::Reset(e.spec_code())) && final(out)@
                == old(out)@ && final(group).index() == old(group).index(),
            Poll::Pending => r == Poll::<Chunk>::Pending && final(out)@ == old(out)@
                && final(group).index() == old(group).index(),
        },
{
    match group.next_frame(hub) {
        Poll::Ready(Ok(Some(frame))) => {
            match encode_bytes(frame.as_slice(), out) {
                Ok(_) => Poll::Ready(Chunk::Data),
                Err(_) => Poll::Ready(Chunk::Reset(Closed::Cancel.code())),
            }
        },
        Poll::Ready(Ok(None)) => Poll::Ready(Chunk::Finish),
        Poll::Ready(Err(e)) => Poll::Ready(Chunk::Reset(e.code())),
        Poll::Pending => Poll::Pending,
    }
}

/// Opens the group that an incoming stream announces in its header: the
/// alias leads to the track cell of an accepted subscription, and the group
/// is appended to that track. The answer is the producer of the group, or
/// the closure to reset the stream with: `NotFound` where no accepted
/// subscription has the alias, else what the track answered. The session is
/// not touched either way.
pub fn open_group(session: &Session, hub: &mut Hub, header: &GroupHeader) -> (r: Result<
    GroupWriter,
    Closed,
>)
    requires
        old(hub).wf(),
    ensures
        final(hub).wf(),
        match session@.route(header.alias) {
            Err(e) => r matches Err(x) && x == e && final(hub)@ == old(hub)@,
            Ok(track) => final(hub)@ == old(hub)@.append_group(track as nat, header.sequence)
                && match r {
                Ok(w) => old(hub)@.track_admits(track as nat, header.sequence) is Ok && w.cell()
                    == old(hub)@.groups.len() && w.spec_sequence() == header.sequence,
                Err(e) => old(hub)@.track_admits(track as nat, header.sequence) == Err::<
                    (),
                    Closed,
                >(e),
            },
        },
{
    match session.route(header.alias) {
        Err(e) => Err(e),
        Ok(track) => hub.append_group(track, header.sequence),
    }
}

/// Takes the bytes that came in on a group stream behind the header, or
/// behind what an earlier call took, and appends every whole frame in them
/// to the group. The answer is the number of bytes taken; the bytes behind
/// them are the beginning of a frame that is not whole yet.
pub fn push(hub: &mut Hub, group: &GroupWriter, payload: &[u8]) -> (taken: usize)
    requires
        old(hub).wf(),
    ensures
        final(hub).wf(),
        taken <= payload@.len(),
        payload@.skip(taken as int) == spec_decode_frames(payload@).1,
        final(hub)@ == spec_append_frames(old(hub)@, group.cell(), spec_decode_frames(payload@).0),
{
    let mut at: usize = 0;
    assert(payload@.skip(0) =~= payload@);
    loop
        invariant
            hub.wf(),
            at <= payload@.len(),
            spec_decode_frames(payload@).1 == spec_decode_frames(payload@.skip(at as int)).1,
            spec_append_frames(old(hub)@, group.cell(), spec_decode_frames(payload@).0)
                == spec_append_frames(
                hub@,
                group.cell(),
                spec_decode_frames(payload@.skip(at as int)).0,
            ),
        ensures
            hub.wf(),
            at <= payload@.len(),
            payload@.skip(at as int) == spec_decode_frames(payload@).1,
            hub@ == spec_append_frames(old(hub)@, group.cell(), spec_decode_frames(payload@).0),
        decreases payload@.len() - at,
    {
        match decode_bytes_at(payload, at) {
            Err(_) => {
                break;
            },
            Ok((bytes, next)) => {
                let ghost before = hub@;
                let ghost rest = spec_decode_frames(payload@.skip(next as int)).0;
                let _ = group.append_frame(hub, bytes);
                proof {
                    lemma_append_frames_front(before, group.cell(), bytes@, rest);
                }
                at = next;
            },
        }
    }
    at
}

/// The hub after each frame of `frames` was offered to the group cell `g`
/// in turn.
pub open spec fn spec_append_frames(
    hub: crate::model::hub::HubView,
    g: nat,
    frames: Seq<Seq<u8>>,
) -> crate::model::hub::HubView
    decreases frames.len(),
{
    if frames.len() == 0 {
        hub
    } else {
        spec_append_frames(hub.append_frame(g, frames[0]), g, frames.skip(1))
    }
}

proof fn lemma_append_frames_front(
    hub: crate::model::hub::HubView,
    g: nat,
    first: Seq<u8>,
    rest: Seq<Seq<u8>>,
)
    ensures
        spec_append_frames(hub, g, seq![first] + rest) == spec_append_frames(
            hub.append_frame(g, first),
            g,
            rest,
        ),
{
    let all = seq![first] + rest;
    assert(all[0] == first);
    assert(all.skip(1) =~= rest);
}

/// Ends the group of an incoming stream as the stream ended. A finished
/// stream that left no bytes over finishes the group. A finished stream
/// that stopped in the middle of a frame aborts it with the code of
/// `Cancel`; a reset stream aborts it with the code of the reset. Only the
/// group is touched.
pub fn close_group(hub: &mut Hub, group: &GroupWriter, end: StreamEnd, left_over: usize) -> (r:
    Result<(), Closed>)
    requires
        old(hub).wf(),
    ensures
        final(hub).wf(),
        final(hub)@ == old(hub)@.close_group(group.cell(), spec_stream_closure(end, left_over)),
        r == old(hub)@.group_status(group.cell()),
{
    match end {
        StreamEnd::Finished => if left_over == 0 {
            group.finish(hub)
        } else {
            group.abort(hub, Closed::Cancel.code())
        },
        StreamEnd::Reset(code) => group.abort(hub, code),
    }
}

/// The closure that the end of a stream gives its group.
pub open spec fn spec_stream_closure(end: StreamEnd, left_over: usize) -> Closed {
    match end {
        StreamEnd::Finished => if left_over == 0 {
            Closed::Done
        } else {
            Closed::App(Closed::Cancel.spec_code())
        },
        StreamEnd::Reset(code) => Closed::App(code),
    }
}

} // verus!
