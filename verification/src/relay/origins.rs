//! The router: for each broadcast name the consumers that are announced
//! under it, newest first. The newest announcement is the one that is
//! served; older ones stay behind it as fallbacks and come forward again
//! when the newer ones are withdrawn.
use std::collections::VecDeque;
use vstd::prelude::*;

use crate::error::Closed;
use crate::model::broadcast::BroadcastReader;
use crate::model::directory::Directory;

verus! {

/// The consumers announced under `name`, newest first, by their cells;
/// empty where the name is not routed.
pub open spec fn spec_queue(routes: Map<Seq<char>, Seq<nat>>, name: Seq<char>) -> Seq<nat> {
    if routes.contains_key(name) {
        routes[name]
    } else {
        Seq::empty()
    }
}

/// The routes after the consumer `cell` was announced under `name`: it
/// stands in front of those announced there before.
pub open spec fn spec_announce(routes: Map<Seq<char>, Seq<nat>>, name: Seq<char>, cell: nat) -> Map<
    Seq<char>,
    Seq<nat>,
> {
    routes.insert(name, seq![cell] + spec_queue(routes, name))
}

/// `i` is the first place at which `queue` holds `cell`.
pub open spec fn spec_is_first(queue: Seq<nat>, cell: nat, i: int) -> bool {
    &&& 0 <= i < queue.len()
    &&& queue[i] == cell
    &&& forall|j: int| 0 <= j < i ==> queue[j] != cell
}

/// `queue` without the first, that is the newest, occurrence of `cell`.
pub open spec fn spec_without_first(queue: Seq<nat>, cell: nat) -> Seq<nat> {
    if exists|i: int| spec_is_first(queue, cell, i) {
        queue.remove(choose|i: int| spec_is_first(queue, cell, i))
    } else {
        queue
    }
}

/// The routes after one announcement of the consumer `cell` under `name`
/// was withdrawn: the newest such announcement leaves, the others keep
/// their order, and a name without announcements is no longer routed.
pub open spec fn spec_unannounce(routes: Map<Seq<char>, Seq<nat>>, name: Seq<char>, cell: nat) -> Map<
    Seq<char>,
    Seq<nat>,
> {
    let left = spec_without_first(spec_queue(routes, name), cell);
    if left.len() == 0 {
        routes.remove(name)
    } else {
        routes.insert(name, left)
    }
}

/// The consumer that a request for `name` is served: the newest one
/// announced under it, or `NotFound`.
pub open spec fn spec_route(routes: Map<Seq<char>, Seq<nat>>, name: Seq<char>) -> Result<
    nat,
    Closed,
> {
    if spec_queue(routes, name).len() > 0 {
        Ok(spec_queue(routes, name)[0])
    } else {
        Err(Closed::NotFound)
    }
}

/// Every routed name has at least one announcement.
pub open spec fn spec_routes_wf(routes: Map<Seq<char>, Seq<nat>>) -> bool {
    forall|k: Seq<char>| #[trigger] routes.contains_key(k) ==> routes[k].len() > 0
}

proof fn lemma_first_is_unique(queue: Seq<nat>, cell: nat, i: int)
    requires
        spec_is_first(queue, cell, i),
    ensures
        spec_without_first(queue, cell) == queue.remove(i),
{
    let j = choose|j: int| spec_is_first(queue, cell, j);
    assert(j == i) by {
        if j < i {
            assert(queue[j] != cell);
        } else if i < j {
            assert(queue[i] != cell);
        }
    }
}

/// The newest announcement wins, and the one before it comes back: after
/// `first` and then `second` were announced under one name, a request for
/// the name is served `second`; once `second` is withdrawn it is served
/// `first`.
pub proof fn lemma_newest_wins(
    routes: Map<Seq<char>, Seq<nat>>,
    name: Seq<char>,
    first: nat,
    second: nat,
)
    ensures
        spec_route(spec_announce(spec_announce(routes, name, first), name, second), name) == Ok::<
            nat,
            Closed,
        >(second),
        spec_route(
            spec_unannounce(
                spec_announce(spec_announce(routes, name, first), name, second),
                name,
                second,
            ),
            name,
        ) == Ok::<nat, Closed>(first),
{
    let one = spec_announce(routes, name, first);
    let two = spec_announce(one, name, second);
    let queue = spec_queue(two, name);
    assert(queue =~= seq![second] + (seq![first] + spec_queue(routes, name)));
    assert(spec_is_first(queue, second, 0));
    lemma_first_is_unique(queue, second, 0);
    assert(queue.remove(0) =~= seq![first] + spec_queue(routes, name));
}

/// Withdrawing an announcement that was just made leaves the routes as
/// they were before it.
pub proof fn lemma_announce_then_unannounce(
    routes: Map<Seq<char>, Seq<nat>>,
    name: Seq<char>,
    cell: nat,
)
    requires
        spec_routes_wf(routes),
    ensures
        spec_unannounce(spec_announce(routes, name, cell), name, cell) == routes,
{
    let one = spec_announce(routes, name, cell);
    let queue = spec_queue(one, name);
    assert(spec_is_first(queue, cell, 0));
    lemma_first_is_unique(queue, cell, 0);
    assert(queue.remove(0) =~= spec_queue(routes, name));
    assert(spec_unannounce(one, name, cell) =~= routes);
}

/// An announcement or a withdrawal under one name leaves every other name
/// as it was.
pub proof fn lemma_other_names_untouched(
    routes: Map<Seq<char>, Seq<nat>>,
    name: Seq<char>,
    cell: nat,
    other: Seq<char>,
)
    requires
        other != name,
    ensures
        spec_queue(spec_announce(routes, name, cell), other) == spec_queue(routes, other),
        spec_queue(spec_unannounce(routes, name, cell), other) == spec_queue(routes, other),
{
}

spec fn cells(queue: Seq<BroadcastReader>) -> Seq<nat> {
    Seq::new(queue.len(), |i: int| queue[i].cell())
}

spec fn cells_of(queue: VecDeque<BroadcastReader>) -> Seq<nat> {
    cells(queue@)
}

/// The routing table of a relay.
pub struct Origins {
    lookup: Directory<VecDeque<BroadcastReader>>,
}

impl View for Origins {
    type V = Map<Seq<char>, Seq<nat>>;

    closed spec fn view(&self) -> Map<Seq<char>, Seq<nat>> {
        self.lookup@.map_values(|q: VecDeque<BroadcastReader>| cells_of(q))
    }
}

/// The scoped handle on one announcement: handing it back withdraws the
/// announcement.
#[derive(Debug)]
pub struct RouterAnnounce {
    broadcast: BroadcastReader,
}

impl Origins {
    /// Every listed name has an announcement, and every consumer stands
    /// under the name of its broadcast.
    pub closed spec fn wf(&self) -> bool {
        forall|k: Seq<char>| #[trigger]
            self.lookup@.contains_key(k) ==> self.lookup@[k]@.len() > 0 && forall|i: int|
                0 <= i < self.lookup@[k]@.len() ==> (#[trigger] self.lookup@[k]@[i]).spec_info() == k
    }

    /// What `wf` says of the plain-value picture.
    pub proof fn lemma_wf(&self)
        requires
            self.wf(),
        ensures
            spec_routes_wf(self@),
    {
        assert forall|k: Seq<char>| #[trigger] self@.contains_key(k) implies self@[k].len() > 0 by {
            assert(self.lookup@.contains_key(k));
        }
    }

    /// The router without routes.
    pub fn new() -> (r: Origins)
        ensures
            r.wf(),
            r@ == Map::<Seq<char>, Seq<nat>>::empty(),
    {
        let r = Origins { lookup: Directory::new() };
        assert(r@ =~= Map::<Seq<char>, Seq<nat>>::empty());
        r
    }

    /// Announces `broadcast` under the name of its broadcast, in front of
    /// what is announced there, and hands out the handle that withdraws
    /// this announcement.
    pub fn announce(&mut self, broadcast: BroadcastReader) -> (r: RouterAnnounce)
        requires
            old(self).wf(),
        ensures
            final(self).wf(),
            final(self)@ == spec_announce(old(self)@, broadcast.spec_info(), broadcast.cell()),
            r.cell() == broadcast.cell(),
            r.spec_info() == broadcast.spec_info(),
    {
        let name = broadcast.info().name.clone();
        let ghost before = self.lookup@;
        let mut queue = match self.lookup.remove(name.as_str()) {
            Some(q) => q,
            None => VecDeque::new(),
        };
        let ghost old_queue = queue@;
        queue.push_front(broadcast.clone());
        let ghost new_queue = queue;
        let _ = self.lookup.insert(name, queue);
        proof {
            let k = broadcast.spec_info();
            assert(self.lookup@ =~= before.insert(k, new_queue));
            assert(cells(new_queue@) =~= seq![broadcast.cell()] + cells(old_queue));
            assert(cells(old_queue) =~= spec_queue(old(self)@, k)) by {
                if before.contains_key(k) {
                    assert(old(self)@[k] == cells_of(before[k]));
                }
            }
            assert(self@ =~= spec_announce(old(self)@, k, broadcast.cell()));
            assert forall|n: Seq<char>| #[trigger] self.lookup@.contains_key(n) implies self.lookup@[n]@.len()
                > 0 && forall|i: int|
                0 <= i < self.lookup@[n]@.len() ==> (#[trigger] self.lookup@[n]@[i]).spec_info()
                    == n by {
                if n == k {
                    assert forall|i: int| 0 <= i < new_queue@.len() implies (
                    #[trigger] new_queue@[i]).spec_info() == k by {
                        if i > 0 {
                            assert(new_queue@[i] == old_queue[i - 1]);
                            assert(before.contains_key(k));
                        }
                    }
                } else {
                    assert(before.contains_key(n));
                }
            }
        }
        RouterAnnounce::new(broadcast)
    }

    /// Withdraws one announcement of `broadcast`: the newest announcement of
    /// that very consumer leaves, all others stay in their order, and a name
    /// left without announcements is no longer routed. The answer says
    /// whether there was one to withdraw.
    pub fn unannounce(&mut self, broadcast: &BroadcastReader) -> (removed: bool)
        requires
            old(self).wf(),
        ensures
            final(self).wf(),
            final(self)@ == spec_unannounce(old(self)@, broadcast.spec_info(), broadcast.cell()),
            removed == spec_queue(old(self)@, broadcast.spec_info()).contains(broadcast.cell()),
    {
        let ghost before = self.lookup@;
        let ghost k = broadcast.spec_info();
        let ghost c = broadcast.cell();
        let name = broadcast.info().name.as_str();
        let mut queue = match self.lookup.remove(name) {
            Some(q) => q,
            None => {
                proof {
                    assert(self.lookup@ =~= before);
                    assert(spec_queue(old(self)@, k) =~= Seq::<nat>::empty());
                    assert(!exists|i: int| spec_is_first(Seq::<nat>::empty(), c, i));
                    assert(self@ =~= spec_unannounce(old(self)@, k, c));
                }
                return false;
            },
        };
        let ghost old_queue = queue@;
        let ghost old_cells = cells(old_queue);
        assert(old_cells == spec_queue(old(self)@, k)) by {
            assert(old(self)@[k] == cells_of(before[k]));
        }
        let id = broadcast.id();
        let mut i: usize = 0;
        let mut found = false;
        while i < queue.len()
            invariant_except_break
                !found,
            invariant
                queue@ == old_queue,
                old_cells == cells(old_queue),
                i <= old_queue.len(),
                id == c,
                forall|j: int| 0 <= j < i ==> old_cells[j] != c,
            ensures
                queue@ == old_queue,
                i <= old_queue.len(),
                found ==> spec_is_first(old_cells, c, i as int),
                !found ==> forall|j: int| 0 <= j < old_cells.len() ==> old_cells[j] != c,
            decreases old_queue.len() - i,
        {
            if queue[i].id() == id {
                found = true;
                assert(old_cells[i as int] == c);
                break;
            }
            assert(old_cells[i as int] != c);
            i += 1;
        }
        if found {
            let _ = queue.remove(i);
            proof {
                lemma_first_is_unique(old_cells, c, i as int);
                assert(cells(queue@) =~= old_cells.remove(i as int));
            }
        } else {
            proof {
                assert(!exists|j: int| spec_is_first(old_cells, c, j));
                assert(!old_cells.contains(c));
            }
        }
        let ghost left = queue;
        assert(cells(left@) == spec_without_first(old_cells, c));
        if queue.len() > 0 {
            let _ = self.lookup.insert(broadcast.info().name.clone(), queue);
            proof {
                assert(self.lookup@ =~= before.insert(k, left));
                assert(self@ =~= spec_unannounce(old(self)@, k, c));
                assert forall|n: Seq<char>| #[trigger] self.lookup@.contains_key(n) implies self.lookup@[n]@.len()
                    > 0 && forall|x: int|
                    0 <= x < self.lookup@[n]@.len() ==> (#[trigger] self.lookup@[n]@[x]).spec_info()
                        == n by {
                    assert(before.contains_key(n));
                    if n == k {
                        assert forall|x: int| 0 <= x < left@.len() implies (
                        #[trigger] left@[x]).spec_info() == k by {
                            if found {
                                let px = if x < i { x } else { x + 1 };
                                assert(left@[x] == old_queue[px]);
                            }
                        }
                    }
                }
            }
        } else {
            proof {
                assert(self.lookup@ =~= before.remove(k));
                assert(self@ =~= spec_unannounce(old(self)@, k, c));
                assert forall|n: Seq<char>| #[trigger] self.lookup@.contains_key(n) implies self.lookup@[n]@.len()
                    > 0 && forall|x: int|
                    0 <= x < self.lookup@[n]@.len() ==> (#[trigger] self.lookup@[n]@[x]).spec_info()
                        == n by {
                    assert(before.contains_key(n));
                }
            }
        }
        proof {
            if found {
                assert(old_cells[i as int] == c);
            }
        }
        found
    }

    /// Answers one routing request: the newest consumer announced under
    /// `name`, or `NotFound` where none is.
    pub fn serve(&self, name: &str) -> (r: Result<BroadcastReader, Closed>)
        requires
            self.wf(),
        ensures
            match r {
                Ok(b) => spec_route(self@, name@) == Ok::<nat, Closed>(b.cell()) && b.spec_info()
                    == name@,
                Err(e) => spec_route(self@, name@) == Err::<nat, Closed>(e),
            },
    {
        match self.lookup.get(name) {
            Some(queue) => {
                proof {
                    assert(self.lookup@.contains_key(name@));
                    assert(self@[name@] == cells_of(*queue));
                }
                Ok(queue[0].clone())
            },
            None => Err(Closed::NotFound),
        }
    }

    /// Number of consumers announced under `name`.
    pub fn announced(&self, name: &str) -> (n: usize)
        requires
            self.wf(),
        ensures
            n == spec_queue(self@, name@).len(),
    {
        match self.lookup.get(name) {
            Some(queue) => {
                proof {
                    assert(self@[name@] == cells_of(*queue));
                }
                queue.len()
            },
            None => 0,
        }
    }
}

impl RouterAnnounce {
    /// The handle on an announcement of `broadcast`.
    pub fn new(broadcast: BroadcastReader) -> (r: RouterAnnounce)
        ensures
            r.cell() == broadcast.cell(),
            r.spec_info() == broadcast.spec_info(),
    {
        RouterAnnounce { broadcast }
    }

    /// The cell of the announced consumer.
    pub closed spec fn cell(&self) -> nat {
        self.broadcast.cell()
    }

    /// The name under which the consumer is announced.
    pub closed spec fn spec_info(&self) -> Seq<char> {
        self.broadcast.spec_info()
    }

    /// The announced consumer.
    pub fn broadcast(&self) -> (b: &BroadcastReader)
        ensures
            b.cell() == self.cell(),
            b.spec_info() == self.spec_info(),
    {
        &self.broadcast
    }

    /// Withdraws the announcement from `router`, as `Origins::unannounce`
    /// does.
    pub fn release(self, router: &mut Origins) -> (removed: bool)
        requires
            old(router).wf(),
        ensures
            final(router).wf(),
            final(router)@ == spec_unannounce(old(router)@, self.spec_info(), self.cell()),
            removed == spec_queue(old(router)@, self.spec_info()).contains(self.cell()),
    {
        router.unannounce(&self.broadcast)
    }
}

} // verus!
