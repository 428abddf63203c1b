//! The registry of currently unopened box identifiers of one pool, and the
//! collision-skipping identifier allocation.

use vstd::prelude::*;

use crate::seqs::distinct;
use crate::seqs::lemma_distinct_push;
use crate::seqs::lemma_remove_value_distinct;
use crate::seqs::lemma_remove_value_is_remove_at;

verus! {

/// The identifiers allocation picks from a stream of random draws: a draw
/// already present in the pool is skipped (a collision), every draw consumes
/// one unit of the iteration budget `cap`, and allocation stops once `want`
/// identifiers are found, the budget is spent, or the stream ends.
pub open spec fn picked_ids(pool: Set<u32>, draws: Seq<u32>, want: nat, cap: nat) -> Seq<u32>
    decreases draws.len(),
{
    if want == 0 || cap == 0 || draws.len() == 0 {
        Seq::empty()
    } else if pool.contains(draws[0]) {
        picked_ids(pool, draws.drop_first(), want, (cap - 1) as nat)
    } else {
        seq![draws[0]] + picked_ids(
            pool.insert(draws[0]),
            draws.drop_first(),
            (want - 1) as nat,
            (cap - 1) as nat,
        )
    }
}

/// What allocation picks is duplicate-free, disjoint from the pool it started
/// against, and no longer than requested.
pub proof fn lemma_picked_ids_fresh(pool: Set<u32>, draws: Seq<u32>, want: nat, cap: nat)
    ensures
        distinct(picked_ids(pool, draws, want, cap)),
        forall|x: u32| #[trigger] picked_ids(pool, draws, want, cap).contains(x) ==> !pool.contains(x),
        picked_ids(pool, draws, want, cap).len() <= want,
    decreases draws.len(),
{
    let p = picked_ids(pool, draws, want, cap);
    if want == 0 || cap == 0 || draws.len() == 0 {
    } else if pool.contains(draws[0]) {
        lemma_picked_ids_fresh(pool, draws.drop_first(), want, (cap - 1) as nat);
    } else {
        let d = draws[0];
        let rest = picked_ids(pool.insert(d), draws.drop_first(), (want - 1) as nat, (cap - 1) as nat);
        lemma_picked_ids_fresh(pool.insert(d), draws.drop_first(), (want - 1) as nat, (cap - 1) as nat);
        assert forall|x: u32| #[trigger] p.contains(x) implies !pool.contains(x) by {
            let i = choose|i: int| 0 <= i < p.len() && p[i] == x;
            if i == 0 {
            } else {
                assert(rest[i - 1] == x);
                assert(rest.contains(x));
            }
        }
        assert forall|i: int, j: int| 0 <= i < j < p.len() implies p[i] != p[j] by {
            if i == 0 {
                assert(rest[j - 1] == p[j]);
                assert(rest.contains(p[j]));
                assert(!pool.insert(d).contains(p[j]));
            } else {
                assert(rest[i - 1] == p[i]);
                assert(rest[j - 1] == p[j]);
            }
        }
    }
}

/// The set of unopened identifiers of one pool, with its cached count.
pub(crate) struct BoxPool {
    pub(crate) ids: Vec<u32>,
    pub(crate) count: u32,
}

impl BoxPool {
    /// The cached count always equals the number of identifiers, and no
    /// identifier is held twice.
    pub(crate) open spec fn wf(self) -> bool {
        self.count as int == self.ids@.len() && distinct(self.ids@)
    }

    pub(crate) fn new() -> (p: BoxPool)
        ensures
            p.wf(),
            p.ids@ == Seq::<u32>::empty(),
            p.count == 0,
    {
        BoxPool { ids: Vec::new(), count: 0 }
    }

    /// Membership test.
    pub(crate) fn contains(&self, id: u32) -> (b: bool)
        ensures
            b == self.ids@.contains(id),
    {
        let n = self.ids.len();
        let mut k: usize = 0;
        while k < n
            invariant
                n == self.ids@.len(),
                k <= n,
                forall|m: int| 0 <= m < k ==> self.ids@[m] != id,
            decreases n - k,
        {
            if self.ids[k] == id {
                return true;
            }
            k += 1;
        }
        false
    }

    /// Adds a fresh identifier and bumps the count.
    pub(crate) fn insert(&mut self, id: u32)
        requires
            old(self).wf(),
            !old(self).ids@.contains(id),
            old(self).count < u32::MAX,
        ensures
            final(self).wf(),
            final(self).ids@ == old(self).ids@.push(id),
            final(self).count == old(self).count + 1,
    {
        proof {
            lemma_distinct_push(self.ids@, id);
        }
        self.ids.push(id);
        self.count = self.count + 1;
    }

    /// Removes a present identifier and drops the count. The caller must
    /// have just confirmed existence; the count therefore cannot underflow.
    pub(crate) fn remove(&mut self, id: u32)
        requires
            old(self).wf(),
            old(self).ids@.contains(id),
        ensures
            final(self).wf(),
            final(self).ids@ == old(self).ids@.remove_value(id),
            final(self).count == old(self).count - 1,
    {
        let n = self.ids.len();
        let mut k: usize = 0;
        while k < n
            invariant
                *old(self) == *self,
                self.wf(),
                n == self.ids@.len(),
                k <= n,
                forall|m: int| 0 <= m < k ==> self.ids@[m] != id,
            decreases n - k,
        {
            if self.ids[k] == id {
                proof {
                    lemma_remove_value_is_remove_at(self.ids@, id, k as int);
                    lemma_remove_value_distinct(self.ids@, id);
                }
                self.ids.remove(k);
                self.count = self.count - 1;
                return;
            }
            k += 1;
        }
        proof {
            assert(!self.ids@.contains(id));
        }
    }
}

} // verus!
