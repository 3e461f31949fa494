//! The statistics-subscriber registry.
//!
//! A connection that issues the Statistics command is kept open and entered
//! here under a fresh id; ids start at 0 and increase monotonically. The
//! connection handles themselves live with the caller, keyed by these ids;
//! the registry decides which ids exist. An id leaves the registry only when
//! the broadcaster saw a write on it fail and hands the collected dead ids
//! to `prune`.

use vstd::prelude::*;

verus! {

/// Which registered ids survive a pruning of `dead`: those not named dead,
/// in their old order.
pub open spec fn spec_pruned(ids: Seq<u64>, dead: Seq<u64>) -> Seq<u64> {
    ids.filter(|id: u64| !dead.contains(id))
}

/// The registry of live statistics subscribers, as ids in registration
/// order, and the id the next subscriber will get.
pub struct ConnectionRegistry {
    ids: Vec<u64>,
    next_id: u64,
}

impl View for ConnectionRegistry {
    type V = Seq<u64>;

    closed spec fn view(&self) -> Seq<u64> {
        self.ids@
    }
}

impl ConnectionRegistry {
    /// The id the next subscriber will be registered under.
    pub closed spec fn spec_next_id(&self) -> u64 {
        self.next_id
    }

    /// The registry's invariant: ids strictly increasing (so unique), all
    /// below the next fresh id.
    pub open spec fn well_formed(&self) -> bool {
        &&& forall|i: int, j: int| 0 <= i < j < self@.len() ==> self@[i] < self@[j]
        &&& forall|i: int| 0 <= i < self@.len() ==> self@[i] < self.spec_next_id()
    }

    /// An empty registry; the first subscriber gets id 0.
    pub fn new() -> (r: ConnectionRegistry)
        ensures
            r.well_formed(),
            r@ == Seq::<u64>::empty(),
            r.spec_next_id() == 0,
    {
        ConnectionRegistry { ids: Vec::new(), next_id: 0 }
    }

    /// The id the next subscriber will be registered under.
    pub fn next_id(&self) -> (id: u64)
        ensures
            id == self.spec_next_id(),
    {
        self.next_id
    }

    /// How many subscribers are registered.
    pub fn len(&self) -> (n: usize)
        ensures
            n == self@.len(),
    {
        self.ids.len()
    }

    /// The registered ids, oldest first, for the caller to walk.
    pub fn ids(&self) -> (ids: Vec<u64>)
        ensures
            ids@ == self@,
    {
        let cloned = self.ids.clone();
        proof {
            assert(cloned@ =~= self@);
        }
        cloned
    }

    /// Register a new subscriber under a fresh id and return that id.
    pub fn register(&mut self) -> (id: u64)
        requires
            old(self).well_formed(),
            old(self).spec_next_id() < u64::MAX,
        ensures
            final(self).well_formed(),
            id == old(self).spec_next_id(),
            final(self)@ == old(self)@.push(id),
            final(self).spec_next_id() == id + 1,
    {
        let id = self.next_id;
        self.ids.push(id);
        self.next_id = id + 1;
        proof {
            assert forall|p: int, q: int| 0 <= p < q < self@.len() implies self@[p] < self@[q] by {
                assert(self@[p] == if p < old(self)@.len() {
                    old(self)@[p]
                } else {
                    id
                });
            }
            assert forall|p: int| 0 <= p < self@.len() implies self@[p] < self.spec_next_id() by {
                assert(self@[p] == if p < old(self)@.len() {
                    old(self)@[p]
                } else {
                    id
                });
            }
        }
        id
    }

    /// Whether `id` is registered.
    pub fn contains(&self, id: u64) -> (r: bool)
        ensures
            r == self@.contains(id),
    {
        contains_id(&self.ids, id)
    }

    /// Remove every id in `dead` from the registry, keeping all others in
    /// their order: the broadcaster calls this once per pass with the ids
    /// whose connections failed.
    pub fn prune(&mut self, dead: &Vec<u64>)
        requires
            old(self).well_formed(),
        ensures
            final(self).well_formed(),
            final(self)@ == spec_pruned(old(self)@, dead@),
            final(self).spec_next_id() == old(self).spec_next_id(),
    {
        let ghost s = self@;
        let ghost pred = |id: u64| !dead@.contains(id);
        let n = self.ids.len();
        let mut kept: Vec<u64> = Vec::new();
        let mut i: usize = 0;
        proof {
            assert(s.take(0) =~= Seq::<u64>::empty());
            reveal(Seq::filter);
        }
        while i < n
            invariant
                i <= n,
                n == s.len(),
                self@ == s,
                s == old(self)@,
                old(self).well_formed(),
                pred == (|id: u64| !dead@.contains(id)),
                kept@ == s.take(i as int).filter(pred),
                forall|p: int, q: int| 0 <= p < q < kept@.len() ==> kept@[p] < kept@[q],
                forall|p: int| 0 <= p < kept@.len() ==> kept@[p] < old(self).spec_next_id(),
                kept@.len() > 0 ==> exists|j: int| 0 <= j < i && kept@.last() == s[j],
            decreases n - i,
        {
            let id = self.ids[i];
            let keep = !contains_id(dead, id);
            proof {
                assert(s.take(i + 1).drop_last() =~= s.take(i as int));
                assert(s.take(i + 1).last() == s[i as int]);
                reveal(Seq::filter);
            }
            if keep {
                proof {
                    if kept@.len() > 0 {
                        let j = choose|j: int| 0 <= j < i && kept@.last() == s[j];
                        assert(s[j] < s[i as int]);
                    }
                }
                kept.push(id);
                proof {
                    assert(exists|j: int| 0 <= j < i + 1 && kept@.last() == s[j]) by {
                        assert(kept@.last() == s[i as int]);
                    }
                }
            }
            i += 1;
        }
        proof {
            assert(s.take(n as int) =~= s);
        }
        self.ids = kept;
    }
}

/// Whether `ids` holds `id`.
fn contains_id(ids: &Vec<u64>, id: u64) -> (r: bool)
    ensures
        r == ids@.contains(id),
{
    let n = ids.len();
    let mut i: usize = 0;
    while i < n
        invariant
            i <= n,
            n == ids@.len(),
            forall|j: int| 0 <= j < i ==> ids@[j] != id,
        decreases n - i,
    {
        if ids[i] == id {
            return true;
        }
        i += 1;
    }
    false
}

/// Every id a filtering keeps was in the sequence it filtered.
proof fn lemma_filter_subset(s: Seq<u64>, pred: spec_fn(u64) -> bool, x: u64)
    requires
        s.filter(pred).contains(x),
    ensures
        s.contains(x),
    decreases s.len(),
{
    reveal(Seq::filter);
    if s.len() > 0 {
        let out = s.filter(pred);
        let sub = s.drop_last().filter(pred);
        let k = choose|k: int| 0 <= k < out.len() && out[k] == x;
        if pred(s.last()) && k == out.len() - 1 {
            assert(x == s.last());
            assert(s[s.len() - 1] == x);
        } else {
            assert(sub.contains(x)) by {
                assert(sub[k] == x);
            }
            lemma_filter_subset(s.drop_last(), pred, x);
            let m = choose|m: int| 0 <= m < s.drop_last().len() && s.drop_last()[m] == x;
            assert(s[m] == x);
        }
    }
}

/// Pruning keeps exactly the ids not named dead: a subscriber whose
/// connection failed is gone after the pass, and every other subscriber is
/// still registered.
pub proof fn lemma_pruned_membership(ids: Seq<u64>, dead: Seq<u64>, id: u64)
    ensures
        spec_pruned(ids, dead).contains(id) <==> ids.contains(id) && !dead.contains(id),
{
    let pred = |x: u64| !dead.contains(x);
    let out = spec_pruned(ids, dead);
    if out.contains(id) {
        let k = choose|k: int| 0 <= k < out.len() && out[k] == id;
        ids.lemma_filter_pred(pred, k);
        lemma_filter_subset(ids, pred, id);
    }
    if ids.contains(id) && !dead.contains(id) {
        let i = choose|i: int| 0 <= i < ids.len() && ids[i] == id;
        ids.lemma_filter_contains(pred, i);
    }
}

} // verus!
