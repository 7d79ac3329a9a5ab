//! Parameter dictionaries: a count, then that many pairs of an id and a
//! length-prefixed value. No id occurs twice. Ids that mean nothing to this
//! library are kept as they came, in the order in which they came.
use vstd::prelude::*;

use crate::coding::bytes::decode_bytes_at;
use crate::coding::bytes::encode_bytes;
use crate::coding::bytes::lemma_bytes_round_trip;
use crate::coding::bytes::spec_decode_bytes;
use crate::coding::bytes::spec_encode_bytes;
use crate::coding::varint::decode_varint_at;
use crate::coding::varint::encode_varint;
use crate::coding::varint::lemma_varint_round_trip;
use crate::coding::varint::spec_decode_varint;
use crate::coding::varint::spec_encode_varint;
use crate::coding::varint::VARINT_MAX;
use crate::error::DecodeError;
use crate::error::EncodeError;

verus! {

/// One parameter: its id and its value.
#[derive(Clone, Debug, PartialEq, Eq)]
pub struct Param {
    pub id: u64,
    pub value: Vec<u8>,
}

impl View for Param {
    type V = (u64, Seq<u8>);

    open spec fn view(&self) -> (u64, Seq<u8>) {
        (self.id, self.value@)
    }
}

/// A dictionary of parameters in wire order.
#[derive(Clone, Debug, PartialEq, Eq)]
pub struct Params {
    entries: Vec<Param>,
}

/// Whether some pair of `p` has the id `id`.
pub open spec fn spec_params_has(p: Seq<(u64, Seq<u8>)>, id: u64) -> bool {
    exists|i: int| 0 <= i < p.len() && (#[trigger] p[i]).0 == id
}

/// No id occurs twice in `p`.
pub open spec fn spec_params_distinct(p: Seq<(u64, Seq<u8>)>) -> bool {
    forall|i: int, j: int| 0 <= i < j < p.len() ==> (#[trigger] p[i]).0 != (#[trigger] p[j]).0
}

/// A position at which `p` holds the id `id`, where it holds it.
pub open spec fn spec_params_index(p: Seq<(u64, Seq<u8>)>, id: u64) -> int {
    choose|i: int| 0 <= i < p.len() && (#[trigger] p[i]).0 == id
}

/// The value that `p` holds for `id`, if any.
pub open spec fn spec_params_value(p: Seq<(u64, Seq<u8>)>, id: u64) -> Option<Seq<u8>> {
    if spec_params_has(p, id) {
        Some(p[spec_params_index(p, id)].1)
    } else {
        None
    }
}

/// The pairs of `p` in their order, with the pair for `id` left out.
pub open spec fn spec_params_without(p: Seq<(u64, Seq<u8>)>, id: u64) -> Seq<(u64, Seq<u8>)> {
    if spec_params_has(p, id) {
        p.remove(spec_params_index(p, id))
    } else {
        p
    }
}

/// Where no id occurs twice, the position of an id is the only one.
pub proof fn lemma_params_index_unique(p: Seq<(u64, Seq<u8>)>, id: u64, i: int)
    requires
        spec_params_distinct(p),
        0 <= i < p.len(),
        p[i].0 == id,
    ensures
        spec_params_has(p, id),
        spec_params_index(p, id) == i,
{
    let j = spec_params_index(p, id);
    if j < i {
        assert(p[j].0 != p[i].0);
    } else if i < j {
        assert(p[i].0 != p[j].0);
    }
}

/// A pair put in front of a dictionary that lacks its id: the whole has no
/// id twice, holds the pair's value for the id, and is the dictionary again
/// once the pair is left out.
pub proof fn lemma_params_front(id: u64, value: Seq<u8>, p: Seq<(u64, Seq<u8>)>)
    requires
        spec_params_distinct(p),
        !spec_params_has(p, id),
    ensures
        spec_params_distinct(seq![(id, value)] + p),
        spec_params_value(seq![(id, value)] + p, id) == Some(value),
        spec_params_without(seq![(id, value)] + p, id) == p,
{
    let w = seq![(id, value)] + p;
    assert forall|i: int, j: int| 0 <= i < j < w.len() implies (#[trigger] w[i]).0 != (
    #[trigger] w[j]).0 by {
        assert(w[j] == p[j - 1]);
        if i == 0 {
            assert(p[j - 1].0 != id);
        } else {
            assert(w[i] == p[i - 1]);
            assert(p[i - 1].0 != p[j - 1].0);
        }
    }
    assert(w[0].0 == id);
    lemma_params_index_unique(w, id, 0);
    assert(w.remove(0) =~= p);
}

/// Leaving a pair out keeps the ids distinct and drops the id for good.
pub proof fn lemma_params_without(p: Seq<(u64, Seq<u8>)>, id: u64)
    requires
        spec_params_distinct(p),
    ensures
        spec_params_distinct(spec_params_without(p, id)),
        !spec_params_has(spec_params_without(p, id), id),
{
    let q = spec_params_without(p, id);
    if spec_params_has(p, id) {
        let k = spec_params_index(p, id);
        assert forall|i: int, j: int| 0 <= i < j < q.len() implies (#[trigger] q[i]).0 != (
        #[trigger] q[j]).0 by {
            let pi = if i < k { i } else { i + 1 };
            let pj = if j < k { j } else { j + 1 };
            assert(q[i] == p[pi] && q[j] == p[pj]);
            assert(p[pi].0 != p[pj].0);
        }
        if spec_params_has(q, id) {
            let i = spec_params_index(q, id);
            let pi = if i < k { i } else { i + 1 };
            assert(q[i] == p[pi]);
            lemma_params_index_unique(p, id, pi);
        }
    }
}

/// A pair in front of other pairs is encoded in front of them.
pub proof fn lemma_entries_front(x: (u64, Seq<u8>), p: Seq<(u64, Seq<u8>)>, from: int)
    requires
        0 <= from <= p.len(),
    ensures
        spec_encode_entries(seq![x] + p, from + 1) == spec_encode_entries(p, from),
    decreases p.len() - from,
{
    let w = seq![x] + p;
    if from < p.len() {
        assert(w[from + 1] == p[from]);
        lemma_entries_front(x, p, from + 1);
    }
}

/// Every id, every value length and the count itself can be encoded.
pub open spec fn spec_params_fit(p: Seq<(u64, Seq<u8>)>) -> bool {
    &&& p.len() <= VARINT_MAX
    &&& forall|i: int|
        0 <= i < p.len() ==> (#[trigger] p[i]).0 <= VARINT_MAX && p[i].1.len() <= VARINT_MAX
}

/// The pairs of `p` from index `from` on, one after the other.
pub open spec fn spec_encode_entries(p: Seq<(u64, Seq<u8>)>, from: int) -> Seq<u8>
    decreases p.len() - from,
{
    if from < 0 || from >= p.len() {
        Seq::empty()
    } else {
        spec_encode_varint(p[from].0) + spec_encode_bytes(p[from].1) + spec_encode_entries(
            p,
            from + 1,
        )
    }
}

/// The count followed by the pairs.
pub open spec fn spec_encode_params(p: Seq<(u64, Seq<u8>)>) -> Seq<u8> {
    spec_encode_varint(p.len() as u64) + spec_encode_entries(p, 0)
}

/// Reads `count` further pairs from the front of `s` behind the pairs
/// `seen`; an id that `seen` already holds gives `DuplicateParam`.
pub open spec fn spec_decode_entries(s: Seq<u8>, count: nat, seen: Seq<(u64, Seq<u8>)>) -> Result<
    (Seq<(u64, Seq<u8>)>, Seq<u8>),
    DecodeError,
>
    decreases count,
{
    if count == 0 {
        Ok((seen, s))
    } else {
        match spec_decode_varint(s) {
            Err(e) => Err(e),
            Ok((id, after_id)) => match spec_decode_bytes(after_id) {
                Err(e) => Err(e),
                Ok((value, rest)) => if spec_params_has(seen, id) {
                    Err(DecodeError::DuplicateParam)
                } else {
                    spec_decode_entries(rest, (count - 1) as nat, seen.push((id, value)))
                },
            },
        }
    }
}

/// Reads one dictionary from the front of `s`.
pub open spec fn spec_decode_params(s: Seq<u8>) -> Result<
    (Seq<(u64, Seq<u8>)>, Seq<u8>),
    DecodeError,
> {
    match spec_decode_varint(s) {
        Err(e) => Err(e),
        Ok((count, rest)) => spec_decode_entries(rest, count as nat, Seq::empty()),
    }
}

proof fn lemma_entries_round_trip(p: Seq<(u64, Seq<u8>)>, from: int, rest: Seq<u8>)
    requires
        spec_params_distinct(p),
        spec_params_fit(p),
        0 <= from <= p.len(),
    ensures
        spec_decode_entries(
            spec_encode_entries(p, from) + rest,
            (p.len() - from) as nat,
            p.subrange(0, from),
        ) == Ok::<(Seq<(u64, Seq<u8>)>, Seq<u8>), DecodeError>((p, rest)),
    decreases p.len() - from,
{
    if from == p.len() {
        assert(p.subrange(0, from) =~= p);
        assert(spec_encode_entries(p, from) + rest =~= rest);
    } else {
        let id = p[from].0;
        let value = p[from].1;
        let tail = spec_encode_entries(p, from + 1) + rest;
        let s = spec_encode_entries(p, from) + rest;
        assert(s =~= spec_encode_varint(id) + (spec_encode_bytes(value) + tail));
        lemma_varint_round_trip(id, spec_encode_bytes(value) + tail);
        lemma_bytes_round_trip(value, tail);
        let seen = p.subrange(0, from);
        assert(!spec_params_has(seen, id)) by {
            if spec_params_has(seen, id) {
                let i = choose|i: int| 0 <= i < seen.len() && (#[trigger] seen[i]).0 == id;
                assert(p[i].0 == p[from].0);
            }
        }
        assert(seen.push((id, value)) =~= p.subrange(0, from + 1));
        lemma_entries_round_trip(p, from + 1, rest);
    }
}

/// Decoding what was encoded gives the dictionary back, pair for pair, and
/// leaves what followed.
pub proof fn lemma_params_round_trip(p: Seq<(u64, Seq<u8>)>, rest: Seq<u8>)
    requires
        spec_params_distinct(p),
        spec_params_fit(p),
    ensures
        spec_decode_params(spec_encode_params(p) + rest) == Ok::<
            (Seq<(u64, Seq<u8>)>, Seq<u8>),
            DecodeError,
        >((p, rest)),
{
    let body = spec_encode_entries(p, 0) + rest;
    assert(spec_encode_params(p) + rest =~= spec_encode_varint(p.len() as u64) + body);
    lemma_varint_round_trip(p.len() as u64, body);
    assert(p.subrange(0, 0) =~= Seq::<(u64, Seq<u8>)>::empty());
    lemma_entries_round_trip(p, 0, rest);
}

/// What `spec_decode_entries` accepts has no id twice, given that `seen`
/// had none.
pub proof fn lemma_decoded_entries_distinct(s: Seq<u8>, count: nat, seen: Seq<(u64, Seq<u8>)>)
    requires
        spec_params_distinct(seen),
        spec_decode_entries(s, count, seen) is Ok,
    ensures
        spec_params_distinct(spec_decode_entries(s, count, seen)->Ok_0.0),
    decreases count,
{
    if count > 0 {
        let (id, after_id) = spec_decode_varint(s)->Ok_0;
        let (value, rest) = spec_decode_bytes(after_id)->Ok_0;
        let next = seen.push((id, value));
        assert(spec_params_distinct(next)) by {
            assert forall|i: int, j: int| 0 <= i < j < next.len() implies (#[trigger] next[i]).0 != (
            #[trigger] next[j]).0 by {
                if j == seen.len() {
                    assert(seen[i].0 != id);
                } else {
                    assert(seen[i].0 != seen[j].0);
                }
            }
        }
        lemma_decoded_entries_distinct(rest, (count - 1) as nat, next);
    }
}

impl View for Params {
    type V = Seq<(u64, Seq<u8>)>;

    closed spec fn view(&self) -> Seq<(u64, Seq<u8>)> {
        Seq::new(self.entries@.len(), |i: int| self.entries@[i]@)
    }
}

impl Params {
    /// No id occurs twice.
    pub open spec fn wf(&self) -> bool {
        spec_params_distinct(self@)
    }

    /// The empty dictionary.
    pub fn new() -> (p: Params)
        ensures
            p@ == Seq::<(u64, Seq<u8>)>::empty(),
            p.wf(),
    {
        let p = Params { entries: Vec::new() };
        assert(p@ =~= Seq::<(u64, Seq<u8>)>::empty());
        p
    }

    /// Number of parameters.
    pub fn len(&self) -> (n: usize)
        ensures
            n == self@.len(),
    {
        self.entries.len()
    }

    /// Position of the parameter `id`, if the dictionary holds it.
    pub fn position(&self, id: u64) -> (r: Option<usize>)
        ensures
            match r {
                Some(i) => i < self@.len() && self@[i as int].0 == id && forall|j: int|
                    0 <= j < i ==> (#[trigger] self@[j]).0 != id,
                None => !spec_params_has(self@, id),
            },
    {
        let mut i: usize = 0;
        while i < self.entries.len()
            invariant
                i <= self.entries@.len(),
                forall|j: int| 0 <= j < i ==> (#[trigger] self@[j]).0 != id,
            decreases self.entries@.len() - i,
        {
            if self.entries[i].id == id {
                return Some(i);
            }
            i += 1;
        }
        None
    }

    /// Whether the dictionary holds the parameter `id`.
    pub fn contains(&self, id: u64) -> (b: bool)
        ensures
            b == spec_params_has(self@, id),
    {
        self.position(id).is_some()
    }

    /// The value of the parameter `id`, if the dictionary holds it.
    pub fn get(&self, id: u64) -> (r: Option<&Vec<u8>>)
        ensures
            match r {
                Some(v) => exists|i: int|
                    0 <= i < self@.len() && (#[trigger] self@[i]) == (id, v@) && forall|j: int|
                        0 <= j < i ==> (#[trigger] self@[j]).0 != id,
                None => !spec_params_has(self@, id),
            },
    {
        match self.position(id) {
            Some(i) => {
                assert(self@[i as int] == (id, self.entries@[i as int].value@));
                Some(&self.entries[i].value)
            },
            None => None,
        }
    }

    /// Adds the parameter at the end, unless the id is already there: then
    /// nothing changes and the answer is `false`.
    pub fn insert(&mut self, id: u64, value: Vec<u8>) -> (added: bool)
        ensures
            added == !spec_params_has(old(self)@, id),
            added ==> final(self)@ == old(self)@.push((id, value@)),
            !added ==> final(self)@ == old(self)@,
            old(self).wf() ==> final(self).wf(),
    {
        if self.contains(id) {
            return false;
        }
        self.entries.push(Param { id, value });
        assert(self@ =~= old(self)@.push((id, value@)));
        proof {
            if old(self).wf() {
                assert forall|i: int, j: int| 0 <= i < j < self@.len() implies (
                #[trigger] self@[i]).0 != (#[trigger] self@[j]).0 by {
                    if j == old(self)@.len() {
                        assert(old(self)@[i].0 != id);
                    } else {
                        assert(old(self)@[i].0 != old(self)@[j].0);
                    }
                }
            }
        }
        true
    }

    /// Takes the parameter `id` out and hands back its value, if the
    /// dictionary holds it; the others keep their order.
    pub fn remove(&mut self, id: u64) -> (r: Option<Vec<u8>>)
        requires
            old(self).wf(),
        ensures
            final(self).wf(),
            final(self)@ == spec_params_without(old(self)@, id),
            match r {
                Some(v) => spec_params_value(old(self)@, id) == Some(v@),
                None => spec_params_value(old(self)@, id) is None,
            },
    {
        proof {
            lemma_params_without(self@, id);
        }
        match self.position(id) {
            Some(i) => {
                proof {
                    lemma_params_index_unique(self@, id, i as int);
                }
                let e = self.entries.remove(i);
                assert(self@ =~= old(self)@.remove(i as int));
                assert(old(self)@[i as int] == e@);
                Some(e.value)
            },
            None => None,
        }
    }

    /// The parameter at `index` in wire order.
    pub fn entry(&self, index: usize) -> (r: &Param)
        requires
            index < self@.len(),
        ensures
            r@ == self@[index as int],
    {
        &self.entries[index]
    }

    /// Whether `encode` accepts the dictionary: every id and every length is
    /// at most `VARINT_MAX`.
    pub fn fits(&self) -> (b: bool)
        ensures
            b == spec_params_fit(self@),
    {
        if self.entries.len() as u64 > VARINT_MAX {
            return false;
        }
        let mut i: usize = 0;
        while i < self.entries.len()
            invariant
                i <= self.entries@.len(),
                forall|j: int|
                    0 <= j < i ==> (#[trigger] self@[j]).0 <= VARINT_MAX && self@[j].1.len()
                        <= VARINT_MAX,
            decreases self.entries@.len() - i,
        {
            if self.entries[i].id > VARINT_MAX || self.entries[i].value.len() as u64 > VARINT_MAX {
                assert(self@[i as int].0 == self.entries@[i as int].id);
                return false;
            }
            i += 1;
        }
        true
    }

    /// Appends the count and the pairs to `out`. A dictionary that does not
    /// fit is refused with `BoundsExceeded` and leaves `out` as it was.
    pub fn encode(&self, out: &mut Vec<u8>) -> (r: Result<(), EncodeError>)
        ensures
            spec_params_fit(self@) ==> r is Ok && final(out)@ == old(out)@ + spec_encode_params(
                self@,
            ),
            !spec_params_fit(self@) ==> r == Err::<(), EncodeError>(EncodeError::BoundsExceeded)
                && final(out)@ == old(out)@,
    {
        if !self.fits() {
            return Err(EncodeError::BoundsExceeded);
        }
        let _ = encode_varint(self.entries.len() as u64, out);
        self.encode_entries(out);
        assert(out@ =~= old(out)@ + spec_encode_params(self@));
        Ok(())
    }

    /// Whether the dictionary with the pair `(id, value)` put in front can
    /// be encoded.
    pub fn fits_behind(&self, id: u64, value: &[u8]) -> (b: bool)
        ensures
            b == spec_params_fit(seq![(id, value@)] + self@),
    {
        let ghost w = seq![(id, value@)] + self@;
        let ok = self.fits() && id <= VARINT_MAX && value.len() as u64 <= VARINT_MAX
            && (self.entries.len() as u64) < VARINT_MAX;
        proof {
            assert(w[0] == (id, value@));
            if ok {
                assert forall|i: int| 0 <= i < w.len() implies (#[trigger] w[i]).0 <= VARINT_MAX
                    && w[i].1.len() <= VARINT_MAX by {
                    if i > 0 {
                        assert(w[i] == self@[i - 1]);
                    }
                }
            } else if spec_params_fit(w) {
                assert forall|i: int| 0 <= i < self@.len() implies (#[trigger] self@[i]).0
                    <= VARINT_MAX && self@[i].1.len() <= VARINT_MAX by {
                    assert(w[i + 1] == self@[i]);
                }
            }
        }
        ok
    }

    /// Appends the dictionary with the pair `(id, value)` put in front to
    /// `out`: the count, that pair, then the pairs of the dictionary.
    pub fn encode_behind(&self, id: u64, value: &[u8], out: &mut Vec<u8>)
        requires
            spec_params_fit(seq![(id, value@)] + self@),
        ensures
            final(out)@ == old(out)@ + spec_encode_params(seq![(id, value@)] + self@),
    {
        let ghost w = seq![(id, value@)] + self@;
        proof {
            assert(w[0] == (id, value@));
            assert forall|i: int| 0 <= i < self@.len() implies (#[trigger] self@[i]).0
                <= VARINT_MAX && self@[i].1.len() <= VARINT_MAX by {
                assert(w[i + 1] == self@[i]);
            }
            lemma_entries_front((id, value@), self@, 0);
        }
        let _ = encode_varint(self.entries.len() as u64 + 1, out);
        let _ = encode_varint(id, out);
        let _ = encode_bytes(value, out);
        self.encode_entries(out);
        assert(out@ =~= old(out)@ + spec_encode_params(w));
    }

    /// Appends the pairs to `out`, without the count in front.
    pub fn encode_entries(&self, out: &mut Vec<u8>)
        requires
            spec_params_fit(self@),
        ensures
            final(out)@ == old(out)@ + spec_encode_entries(self@, 0),
    {
        let n = self.entries.len();
        let ghost head = out@;
        let mut i: usize = 0;
        while i < n
            invariant
                n == self.entries@.len(),
                i <= n,
                spec_params_fit(self@),
                out@ + spec_encode_entries(self@, i as int) == head + spec_encode_entries(self@, 0),
            decreases n - i,
        {
            let ghost before = out@;
            let _ = encode_varint(self.entries[i].id, out);
            let _ = encode_bytes(self.entries[i].value.as_slice(), out);
            proof {
                assert(self@[i as int] == (self.entries@[i as int].id, self.entries@[i as int].value@));
                assert(out@ + spec_encode_entries(self@, i + 1) =~= before + spec_encode_entries(
                    self@,
                    i as int,
                ));
            }
            i += 1;
        }
        assert(spec_encode_entries(self@, n as int) =~= Seq::<u8>::empty());
        assert(out@ =~= old(out)@ + spec_encode_entries(self@, 0));
    }

    /// Reads one dictionary at `pos`. On success the second component is the
    /// position just behind it.
    pub fn decode_at(buf: &[u8], pos: usize) -> (r: Result<(Params, usize), DecodeError>)
        requires
            pos <= buf@.len(),
        ensures
            match r {
                Ok((p, next)) => pos < next <= buf@.len() && p.wf() && spec_decode_params(
                    buf@.skip(pos as int),
                ) == Ok::<(Seq<(u64, Seq<u8>)>, Seq<u8>), DecodeError>(
                    (p@, buf@.skip(next as int)),
                ),
                Err(e) => spec_decode_params(buf@.skip(pos as int)) == Err::<
                    (Seq<(u64, Seq<u8>)>, Seq<u8>),
                    DecodeError,
                >(e),
            },
    {
        let (count, start) = decode_varint_at(buf, pos)?;
        let mut p = Params::new();
        let mut at = start;
        let mut i: u64 = 0;
        while i < count
            invariant
                i <= count,
                pos < at <= buf@.len(),
                p.wf(),
                spec_decode_params(buf@.skip(pos as int)) == spec_decode_entries(
                    buf@.skip(at as int),
                    (count - i) as nat,
                    p@,
                ),
            decreases count - i,
        {
            let (id, after_id) = decode_varint_at(buf, at)?;
            let (value, next) = decode_bytes_at(buf, after_id)?;
            if !p.insert(id, value) {
                return Err(DecodeError::DuplicateParam);
            }
            at = next;
            i += 1;
        }
        Ok((p, at))
    }
}

} // verus!
