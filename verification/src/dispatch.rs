//! Bookkeeping of the OCR dispatch engine: the id source, the
//! pending-response table and the fixed-capacity worker pool.
//!
//! The engine multiplexes many concurrent recognition requests.  The
//! asynchronous plumbing (channels, tasks, the backend process) lives
//! outside the library; it drives these structures and owes every decision
//! to them: which id a submission gets, which slot a result is delivered
//! to, and whether a worker is reused, started or refused.

use vstd::prelude::*;

verus! {

/// Ids strictly increase along the table; in particular no id occurs
/// twice.
pub open spec fn ids_strictly_increase<S>(t: Seq<(u64, S)>) -> bool {
    forall|i: int, j: int| 0 <= i < j < t.len() ==> (#[trigger] t[i]).0 < (#[trigger] t[j]).0
}

/// The position of id `id` in the table, or -1 when no entry carries it.
pub open spec fn index_of_id<S>(t: Seq<(u64, S)>, id: u64) -> int
    decreases t.len(),
{
    if t.len() == 0 {
        -1
    } else if t[0].0 == id {
        0
    } else if index_of_id(t.drop_first(), id) < 0 {
        -1
    } else {
        index_of_id(t.drop_first(), id) + 1
    }
}

/// What an `index_of_id` answer means.
pub proof fn lemma_index_of_id_props<S>(t: Seq<(u64, S)>, id: u64)
    ensures
        ({
            let r = index_of_id(t, id);
            ||| (r == -1 && forall|j: int| 0 <= j < t.len() ==> (#[trigger] t[j]).0 != id)
            ||| (0 <= r < t.len() && t[r].0 == id && forall|j: int|
                0 <= j < r ==> (#[trigger] t[j]).0 != id)
        }),
    decreases t.len(),
{
    if t.len() > 0 && t[0].0 != id {
        lemma_index_of_id_props(t.drop_first(), id);
        let r = index_of_id(t.drop_first(), id);
        if r >= 0 {
            assert forall|j: int| 0 <= j < r + 1 implies (#[trigger] t[j]).0 != id by {
                if j > 0 {
                    assert(t[j] == t.drop_first()[j - 1]);
                }
            }
        } else {
            assert forall|j: int| 0 <= j < t.len() implies (#[trigger] t[j]).0 != id by {
                if j > 0 {
                    assert(t[j] == t.drop_first()[j - 1]);
                }
            }
        }
    }
}

/// A first entry with id `id` pins `index_of_id` down.
pub proof fn lemma_index_of_id_at<S>(t: Seq<(u64, S)>, id: u64, i: int)
    requires
        0 <= i < t.len(),
        t[i].0 == id,
        forall|j: int| 0 <= j < i ==> (#[trigger] t[j]).0 != id,
    ensures
        index_of_id(t, id) == i,
    decreases t.len(),
{
    if i > 0 {
        assert(t[0].0 != id);
        assert(forall|j: int| 0 <= j < i - 1 ==> (#[trigger] t.drop_first()[j]).0 != id);
        assert(t.drop_first()[i - 1] == t[i]);
        lemma_index_of_id_at(t.drop_first(), id, i - 1);
    }
}

/// Without an entry for `id`, `index_of_id` answers -1.
pub proof fn lemma_index_of_id_none<S>(t: Seq<(u64, S)>, id: u64)
    requires
        forall|j: int| 0 <= j < t.len() ==> (#[trigger] t[j]).0 != id,
    ensures
        index_of_id(t, id) == -1,
    decreases t.len(),
{
    if t.len() > 0 {
        assert(forall|j: int| 0 <= j < t.len() - 1 ==> (#[trigger] t.drop_first()[j]).0 != id);
        lemma_index_of_id_none(t.drop_first(), id);
    }
}

/// The id source and pending-response table of the dispatch engine,
/// generic over the response destination `S`.
///
/// Every submission is keyed by a unique, monotonically increasing id; a
/// delivery consumes the entry of exactly its own id.
pub struct Dispatcher<S> {
    next_id: u64,
    pending: Vec<(u64, S)>,
}

impl<S> Dispatcher<S> {
    /// The pending-response table: one entry per in-flight request.
    pub closed spec fn table(&self) -> Seq<(u64, S)> {
        self.pending@
    }

    /// The id the next submission will get.
    pub closed spec fn next(&self) -> u64 {
        self.next_id
    }

    /// Table ids strictly increase and stay below the next id.
    pub closed spec fn inv(&self) -> bool {
        &&& ids_strictly_increase(self.table())
        &&& forall|i: int|
            0 <= i < self.table().len() ==> (#[trigger] self.table()[i]).0 < self.next_id
    }

    /// A fresh dispatcher: no request in flight, ids start at 0.
    pub fn new() -> (d: Self)
        ensures
            d.inv(),
            d.table() == Seq::<(u64, S)>::empty(),
            d.next() == 0,
    {
        Dispatcher { next_id: 0, pending: Vec::new() }
    }

    /// How many requests are in flight.
    pub fn pending_count(&self) -> (n: usize)
        ensures
            n == self.table().len(),
    {
        self.pending.len()
    }

    /// The id the next submission will get.
    pub fn next_request_id(&self) -> (id: u64)
        ensures
            id == self.next(),
    {
        self.next_id
    }

    /// Accepts one submission: records the response slot under a fresh id
    /// — one that no in-flight request carries — and answers that id.
    pub fn submit(&mut self, slot: S) -> (id: u64)
        requires
            old(self).inv(),
            old(self).next() < u64::MAX,
        ensures
            final(self).inv(),
            id == old(self).next(),
            final(self).next() == old(self).next() + 1,
            final(self).table() == old(self).table().push((id, slot)),
            forall|j: int|
                0 <= j < old(self).table().len() ==> (#[trigger] old(self).table()[j]).0 != id,
    {
        let id = self.next_id;
        self.pending.push((id, slot));
        self.next_id = self.next_id + 1;
        id
    }

    /// Delivers the response for `id`: removes the entry registered under
    /// exactly that id and answers its slot.  An id that is not in flight
    /// — never issued, or already answered — changes nothing and answers
    /// nothing, so no slot is ever reached twice or by a foreign result.
    pub fn complete(&mut self, id: u64) -> (r: Option<S>)
        requires
            old(self).inv(),
        ensures
            final(self).inv(),
            final(self).next() == old(self).next(),
            ({
                let i = index_of_id(old(self).table(), id);
                match r {
                    Some(slot) => {
                        &&& i >= 0
                        &&& slot == old(self).table()[i].1
                        &&& final(self).table() == old(self).table().remove(i)
                    },
                    None => i == -1 && final(self).table() == old(self).table(),
                }
            }),
    {
        let mut i: usize = 0;
        let n = self.pending.len();
        while i < n
            invariant
                i <= n,
                *self == *old(self),
                n == self.pending@.len(),
                old(self).inv(),
                forall|j: int| 0 <= j < i ==> (#[trigger] self.pending@[j]).0 != id,
            decreases n - i,
        {
            if self.pending[i].0 == id {
                let ghost t = self.pending@;
                proof {
                    lemma_index_of_id_at(t, id, i as int);
                }
                let entry = self.pending.remove(i);
                proof {
                    t.remove_ensures(i as int);
                    assert forall|a: int, b: int|
                        0 <= a < b < self.pending@.len() implies (#[trigger] self.pending@[a]).0
                        < (#[trigger] self.pending@[b]).0 by {
                        if b < i {
                            assert(self.pending@[a] == t[a]);
                            assert(self.pending@[b] == t[b]);
                        } else if a < i {
                            assert(self.pending@[a] == t[a]);
                            assert(self.pending@[b] == t[b + 1]);
                        } else {
                            assert(self.pending@[a] == t[a + 1]);
                            assert(self.pending@[b] == t[b + 1]);
                        }
                    }
                    assert forall|a: int| 0 <= a < self.pending@.len() implies (
                    #[trigger] self.pending@[a]).0 < self.next_id by {
                        if a < i {
                            assert(self.pending@[a] == t[a]);
                        } else {
                            assert(self.pending@[a] == t[a + 1]);
                        }
                    }
                }
                return Some(entry.1);
            }
            i += 1;
        }
        proof {
            lemma_index_of_id_none(self.pending@, id);
        }
        None
    }
}

/// Exactly-once delivery: once the entry of `id` is removed, no entry of
/// the table carries that id any more, so a second delivery for the same
/// id finds nothing; and since the removal takes the slot stored under
/// exactly that id, no response ever reaches the slot of a different id.
pub proof fn lemma_exactly_once_delivery<S>(t: Seq<(u64, S)>, id: u64)
    requires
        ids_strictly_increase(t),
        index_of_id(t, id) >= 0,
    ensures
        index_of_id(t.remove(index_of_id(t, id)), id) == -1,
{
    let i = index_of_id(t, id);
    lemma_index_of_id_props(t, id);
    assert forall|j: int| 0 <= j < t.remove(i).len() implies (#[trigger] t.remove(i)[j]).0
        != id by {
        if j < i {
            assert(t.remove(i)[j] == t[j]);
        } else {
            assert(t.remove(i)[j] == t[j + 1]);
            assert(t[i].0 < t[j + 1].0);
        }
    }
    lemma_index_of_id_none(t.remove(i), id);
}

/// Ids never repeat among in-flight requests: any two distinct entries of
/// a dispatcher's table carry distinct ids.
pub proof fn lemma_ids_unique<S>(d: &Dispatcher<S>)
    requires
        d.inv(),
    ensures
        forall|i: int, j: int|
            0 <= i < d.table().len() && 0 <= j < d.table().len() && i != j ==> (
            #[trigger] d.table()[i]).0 != (#[trigger] d.table()[j]).0,
{
}

/// What a checkout of the worker pool answers.
pub enum WorkerCheckout<W> {
    /// An idle worker to reuse.
    Reuse(W),
    /// No worker is idle but the pool has room: the caller starts a new
    /// worker and owns it as if it had been checked out.
    StartNew,
    /// Every worker up to the pool's capacity is busy.
    Busy,
}

/// The fixed-capacity pool of reusable OCR backend worker handles.
///
/// A handle is owned exclusively by whichever request checked it out and
/// comes back with `checkin` right after use; a handle whose backend died
/// is dropped with `discard`, freeing its slot.  The pool never lets more
/// than `capacity` workers exist at once.
pub struct WorkerPool<W> {
    idle: Vec<W>,
    live: usize,
    capacity: usize,
}

impl<W> WorkerPool<W> {
    /// The idle handles, most recently returned last.
    pub closed spec fn idle_workers(&self) -> Seq<W> {
        self.idle@
    }

    /// How many workers exist: idle ones plus checked-out ones.
    pub closed spec fn live_count(&self) -> int {
        self.live as int
    }

    /// The fixed upper bound on existing workers.
    pub closed spec fn cap(&self) -> int {
        self.capacity as int
    }

    /// No more idle than existing workers, no more existing than allowed.
    pub closed spec fn inv(&self) -> bool {
        self.idle_workers().len() <= self.live_count() <= self.cap()
    }

    /// How many workers are idle right now.
    pub fn idle_count(&self) -> (n: usize)
        ensures
            n == self.idle_workers().len(),
    {
        self.idle.len()
    }

    /// How many workers exist right now.
    pub fn live_workers(&self) -> (n: usize)
        ensures
            n == self.live_count(),
    {
        self.live
    }

    /// An empty pool with the given capacity.
    pub fn new(capacity: usize) -> (p: Self)
        ensures
            p.inv(),
            p.cap() == capacity,
            p.live_count() == 0,
            p.idle_workers() == Seq::<W>::empty(),
    {
        WorkerPool { idle: Vec::new(), live: 0, capacity }
    }

    /// Checks a worker out: reuses the most recently returned idle one,
    /// asks the caller to start a new one while the capacity allows it,
    /// and refuses otherwise.
    pub fn checkout(&mut self) -> (r: WorkerCheckout<W>)
        requires
            old(self).inv(),
        ensures
            final(self).inv(),
            final(self).cap() == old(self).cap(),
            (match r {
                WorkerCheckout::Reuse(w) => {
                    &&& old(self).idle_workers().len() > 0
                    &&& w == old(self).idle_workers().last()
                    &&& final(self).idle_workers() == old(self).idle_workers().drop_last()
                    &&& final(self).live_count() == old(self).live_count()
                },
                WorkerCheckout::StartNew => {
                    &&& old(self).idle_workers().len() == 0
                    &&& old(self).live_count() < old(self).cap()
                    &&& final(self).idle_workers() == old(self).idle_workers()
                    &&& final(self).live_count() == old(self).live_count() + 1
                },
                WorkerCheckout::Busy => {
                    &&& old(self).idle_workers().len() == 0
                    &&& old(self).live_count() == old(self).cap()
                    &&& final(self).idle_workers() == old(self).idle_workers()
                    &&& final(self).live_count() == old(self).live_count()
                },
            }),
    {
        match self.idle.pop() {
            Some(w) => WorkerCheckout::Reuse(w),
            None => {
                if self.live < self.capacity {
                    self.live = self.live + 1;
                    WorkerCheckout::StartNew
                } else {
                    WorkerCheckout::Busy
                }
            },
        }
    }

    /// Returns a checked-out worker to the pool for reuse.
    pub fn checkin(&mut self, w: W)
        requires
            old(self).inv(),
            old(self).idle_workers().len() < old(self).live_count(),
        ensures
            final(self).inv(),
            final(self).cap() == old(self).cap(),
            final(self).live_count() == old(self).live_count(),
            final(self).idle_workers() == old(self).idle_workers().push(w),
    {
        self.idle.push(w);
    }

    /// Drops a checked-out worker whose backend failed, freeing its slot.
    pub fn discard(&mut self)
        requires
            old(self).inv(),
            old(self).idle_workers().len() < old(self).live_count(),
        ensures
            final(self).inv(),
            final(self).cap() == old(self).cap(),
            final(self).live_count() == old(self).live_count() - 1,
            final(self).idle_workers() == old(self).idle_workers(),
    {
        self.live = self.live - 1;
    }
}

} // verus!
