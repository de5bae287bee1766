//! The identifier pool: issues and recycles the small unsigned integers
//! that name multiplexed downstream connections. An id is live from the
//! `request_id` that returned it until the `return_id` that gives it back;
//! the pool never hands out an id that is still live, so no two
//! concurrently-live ids are ever equal.

use vstd::prelude::*;

verus! {

/// The mathematical value of a pool: the recycled ids waiting to be reused,
/// and the smallest id that has never been issued.
pub struct PoolModel {
    pub free: Seq<u16>,
    pub last: u16,
}

impl PoolModel {
    /// The free list holds no duplicates and nothing at or above `last`.
    pub open spec fn wf(self) -> bool {
        &&& forall|i: int| 0 <= i < self.free.len() ==> self.free[i] < self.last
        &&& forall|i: int, j: int|
            0 <= i < j < self.free.len() ==> self.free[i] != self.free[j]
    }

    /// The ids currently held by clients of the pool: issued at some point
    /// (below `last`) and not yet returned.
    pub open spec fn live(self) -> Set<u16> {
        Set::new(|x: u16| x < self.last && !self.free.contains(x))
    }

    /// Whether the pool can issue one more id.
    pub open spec fn can_request(self) -> bool {
        self.free.len() > 0 || self.last < u16::MAX
    }

    /// The id the next request returns: the most recently recycled id when
    /// one is waiting, else the smallest never-issued id.
    pub open spec fn next_id(self) -> u16 {
        if self.free.len() > 0 {
            self.free.last()
        } else {
            self.last
        }
    }

    /// The pool after one request.
    pub open spec fn request(self) -> PoolModel {
        if self.free.len() > 0 {
            PoolModel { free: self.free.drop_last(), last: self.last }
        } else {
            PoolModel { free: self.free, last: (self.last + 1) as u16 }
        }
    }

    /// The pool after `id` is returned.
    pub open spec fn release(self, id: u16) -> PoolModel {
        PoolModel { free: self.free.push(id), last: self.last }
    }
}

/// An identifier pool over a last-in-first-out free list.
pub struct IDPool {
    pub deq: Vec<u16>,
    pub last: u16,
}

impl View for IDPool {
    type V = PoolModel;

    open spec fn view(&self) -> PoolModel {
        PoolModel { free: self.deq@, last: self.last }
    }
}

/// One request leaves the pool well formed, issues an id that was not live,
/// and makes exactly that id live.
pub proof fn lemma_request_fresh(m: PoolModel)
    requires
        m.wf(),
        m.can_request(),
    ensures
        m.request().wf(),
        !m.live().contains(m.next_id()),
        m.request().live() == m.live().insert(m.next_id()),
{
    let r = m.next_id();
    let n = m.request();
    if m.free.len() > 0 {
        assert(m.free[m.free.len() - 1] == r);
        assert(m.free.contains(r));
        assert(!n.free.contains(r)) by {
            if n.free.contains(r) {
                let i = choose|i: int| 0 <= i < n.free.len() && n.free[i] == r;
                assert(m.free[i] == m.free[m.free.len() - 1]);
            }
        }
        assert forall|x: u16| n.live().contains(x) <==> m.live().insert(r).contains(x) by {
            if x == r {
                assert(n.live().contains(r));
            } else {
                assert(m.free.contains(x) <==> n.free.contains(x)) by {
                    if m.free.contains(x) {
                        let i = choose|i: int| 0 <= i < m.free.len() && m.free[i] == x;
                        assert(i != m.free.len() - 1);
                        assert(n.free[i] == x);
                        assert(n.free.contains(x));
                    }
                    if n.free.contains(x) {
                        let i = choose|i: int| 0 <= i < n.free.len() && n.free[i] == x;
                        assert(m.free[i] == x);
                        assert(m.free.contains(x));
                    }
                }
            }
        }
        assert(n.live() =~= m.live().insert(r));
    } else {
        assert forall|x: u16| n.live().contains(x) <==> m.live().insert(r).contains(x) by {}
        assert(n.live() =~= m.live().insert(r));
    }
}

/// One release takes exactly the released id out of the live set.
pub proof fn lemma_release_not_live(m: PoolModel, id: u16)
    requires
        m.wf(),
        m.live().contains(id),
    ensures
        m.release(id).wf(),
        m.release(id).live() == m.live().remove(id),
{
    let n = m.release(id);
    assert forall|x: u16| n.free.contains(x) <==> (m.free.contains(x) || x == id) by {
        if n.free.contains(x) {
            let i = choose|i: int| 0 <= i < n.free.len() && n.free[i] == x;
            if i < m.free.len() {
                assert(m.free[i] == x);
                assert(m.free.contains(x));
            }
        }
        if m.free.contains(x) {
            let i = choose|i: int| 0 <= i < m.free.len() && m.free[i] == x;
            assert(n.free[i] == x);
            assert(n.free.contains(x));
        }
        if x == id {
            assert(n.free[n.free.len() - 1] == id);
            assert(n.free.contains(x));
        }
    }
    assert(n.wf()) by {
        assert forall|i: int, j: int| 0 <= i < j < n.free.len() implies n.free[i] != n.free[j] by {
            if j == n.free.len() - 1 {
                assert(m.free[i] == n.free[i]);
                assert(m.free.contains(n.free[i]));
            }
        }
    }
    assert(n.live() =~= m.live().remove(id));
}

/// Two requests with no release between them issue distinct ids: of any two
/// concurrently-live ids, the one issued later cannot equal the earlier.
pub proof fn lemma_successive_requests_distinct(m: PoolModel)
    requires
        m.wf(),
        m.can_request(),
        m.request().can_request(),
    ensures
        m.request().next_id() != m.next_id(),
{
    lemma_request_fresh(m);
    lemma_request_fresh(m.request());
    assert(m.request().live().contains(m.next_id()));
}

/// While every id registered in the connection table is live in the pool,
/// a request can never return an id the table still holds: no stale entry
/// is ever resurrected under a reused id.
pub proof fn lemma_request_avoids_held(m: PoolModel, held: Set<u16>)
    requires
        m.wf(),
        m.can_request(),
        held.subset_of(m.live()),
    ensures
        !held.contains(m.next_id()),
{
    lemma_request_fresh(m);
}

/// A released id is issued again by the very next request: reuse happens,
/// but only after the release.
pub proof fn lemma_release_then_request(m: PoolModel, id: u16)
    requires
        m.wf(),
        m.live().contains(id),
    ensures
        m.release(id).next_id() == id,
{
    assert(m.release(id).free[m.release(id).free.len() - 1] == id);
}

impl IDPool {
    /// Issues an id that no current holder has: the most recently returned
    /// id when one is waiting, else a fresh one.
    pub fn request_id(&mut self) -> (r: u16)
        requires
            old(self)@.wf(),
            old(self)@.can_request(),
        ensures
            final(self)@ == old(self)@.request(),
            r == old(self)@.next_id(),
            final(self)@.wf(),
            !old(self)@.live().contains(r),
            final(self)@.live() == old(self)@.live().insert(r),
    {
        proof {
            lemma_request_fresh(self@);
        }
        match self.deq.pop() {
            Some(id) => id,
            None => {
                let was = self.last;
                self.last = self.last + 1;
                was
            },
        }
    }

    /// Returns `id` to the pool; it stops being live and may be issued
    /// again by a later request.
    pub fn return_id(&mut self, id: u16)
        requires
            old(self)@.wf(),
            old(self)@.live().contains(id),
        ensures
            final(self)@ == old(self)@.release(id),
            final(self)@.wf(),
            final(self)@.live() == old(self)@.live().remove(id),
    {
        proof {
            lemma_release_not_live(self@, id);
        }
        self.deq.push(id);
    }

    /// A pool whose first fresh id is 0.
    pub fn zero() -> (r: Self)
        ensures
            r@.wf(),
            r@.free.len() == 0,
            r@.last == 0,
            r@.live() == Set::<u16>::empty(),
    {
        Self::new(0)
    }

    /// A pool whose first fresh id is `start`; ids below `start` are never
    /// issued.
    pub fn new(start: u16) -> (r: Self)
        ensures
            r@.wf(),
            r@.free.len() == 0,
            r@.last == start,
            r@.live() == Set::new(|x: u16| x < start),
    {
        let p = Self { last: start, deq: Vec::new() };
        proof {
            assert(p@.live() =~= Set::new(|x: u16| x < start));
        }
        p
    }
}

} // verus!
