use std::collections::HashMap;
use vstd::prelude::*;

verus! {

broadcast use vstd::std_specs::hash::group_hash_axioms;

/// Takes results that arrive in any order, each tagged by its index, and hands
/// them out in index order, from 0 up to `total`.
pub struct OrderedAggregator<T> {
    next: usize,
    total: usize,
    pending: HashMap<usize, T>,
}

impl<T> OrderedAggregator<T> {
    /// The index of the next result to hand out.
    pub closed spec fn next_spec(&self) -> nat {
        self.next as nat
    }

    /// How many results the aggregator hands out in all.
    pub closed spec fn total_spec(&self) -> nat {
        self.total as nat
    }

    /// The results that arrived and wait for their turn, by index.
    pub closed spec fn pending_spec(&self) -> Map<usize, T> {
        self.pending@
    }

    pub closed spec fn wf(&self) -> bool {
        &&& self.next <= self.total
        &&& self.pending@.dom().finite()
        &&& forall|k: usize| #[trigger] self.pending@.contains_key(k) ==> self.next <= k < self.total
    }

    /// Only finitely many results wait, each of them still to come.
    pub proof fn lemma_pending_bounded(&self)
        requires
            self.wf(),
        ensures
            self.pending_spec().dom().finite(),
            forall|k: usize| #[trigger] self.pending_spec().contains_key(k)
                ==> self.next_spec() <= k < self.total_spec(),
    {
    }

    /// An aggregator for results `0..total`, holding nothing yet.
    pub fn new(total: usize) -> (r: Self)
        ensures
            r.wf(),
            r.next_spec() == 0,
            r.total_spec() == total,
            r.pending_spec() == Map::<usize, T>::empty(),
    {
        OrderedAggregator { next: 0, total, pending: HashMap::new() }
    }

    pub fn next_index(&self) -> (r: usize)
        ensures
            r == self.next_spec(),
    {
        self.next
    }

    pub fn total(&self) -> (r: usize)
        ensures
            r == self.total_spec(),
    {
        self.total
    }

    /// Whether the result for `index` has arrived and waits for its turn.
    pub fn holds(&self, index: usize) -> (r: bool)
        requires
            self.wf(),
        ensures
            r == self.pending_spec().contains_key(index),
    {
        self.pending.contains_key(&index)
    }

    /// How many results wait for their turn.
    pub fn pending_count(&self) -> (r: usize)
        requires
            self.wf(),
        ensures
            r == self.pending_spec().len(),
    {
        self.pending.len()
    }

    /// Whether every result has been handed out.
    pub fn is_finished(&self) -> (r: bool)
        ensures
            r == (self.next_spec() == self.total_spec()),
    {
        self.next == self.total
    }

    /// Stores the result for `index`. It is taken only if `index` is still to
    /// come and no result for it waits already.
    pub fn insert(&mut self, index: usize, item: T) -> (accepted: bool)
        requires
            old(self).wf(),
        ensures
            final(self).wf(),
            accepted == (old(self).next_spec() <= index < old(self).total_spec()
                && !old(self).pending_spec().contains_key(index)),
            final(self).next_spec() == old(self).next_spec(),
            final(self).total_spec() == old(self).total_spec(),
            accepted ==> final(self).pending_spec() == old(self).pending_spec().insert(index, item),
            !accepted ==> final(self).pending_spec() == old(self).pending_spec(),
    {
        if self.next <= index && index < self.total && !self.pending.contains_key(&index) {
            self.pending.insert(index, item);
            true
        } else {
            false
        }
    }

    /// Hands out the result whose turn it is, if it has arrived.
    pub fn pop_ready(&mut self) -> (r: Option<T>)
        requires
            old(self).wf(),
        ensures
            final(self).wf(),
            final(self).total_spec() == old(self).total_spec(),
            old(self).pending_spec().contains_key(old(self).next_spec() as usize) ==> {
                &&& r == Some(old(self).pending_spec()[old(self).next_spec() as usize])
                &&& final(self).next_spec() == old(self).next_spec() + 1
                &&& final(self).pending_spec() == old(self).pending_spec().remove(old(self).next_spec() as usize)
            },
            !old(self).pending_spec().contains_key(old(self).next_spec() as usize) ==> {
                &&& r is None
                &&& final(self).next_spec() == old(self).next_spec()
                &&& final(self).pending_spec() == old(self).pending_spec()
            },
    {
        let key = self.next;
        match self.pending.remove(&key) {
            Some(item) => {
                self.next = self.next + 1;
                Some(item)
            },
            None => None,
        }
    }
}

} // verus!
