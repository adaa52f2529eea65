//! The ledger store: a key -> counter mapping over user identifiers, used
//! in two independent instances (tickets and currency). It offers
//! get-or-default and set semantics, and an ordered dump of its pairs for
//! the backup exporter. The durable on-disk mirror of a store lives outside
//! the library; this type is the authoritative in-memory form the
//! orchestrator works against.

use vstd::prelude::*;
use vstd::map::*;

verus! {

/// A key -> counter mapping with pairwise distinct keys.
pub struct LedgerStore {
    pub entries: Vec<(u64, u64)>,
}

impl View for LedgerStore {
    type V = Map<u64, u64>;

    open spec fn view(&self) -> Map<u64, u64> {
        Map::new(|k: u64| self.spec_contains_key(k), |k: u64| self.spec_value_at(k))
    }
}

impl LedgerStore {
    /// The pairs in dump order.
    pub open spec fn pairs(self) -> Seq<(u64, u64)> {
        self.entries@
    }

    /// Keys are pairwise distinct, so each key determines one counter.
    pub open spec fn wf(self) -> bool {
        forall|i: int, j: int|
            0 <= i < j < self.pairs().len() ==> self.pairs()[i].0 != self.pairs()[j].0
    }

    pub open spec fn spec_contains_key(self, k: u64) -> bool {
        exists|i: int| 0 <= i < self.pairs().len() && self.pairs()[i].0 == k
    }

    pub open spec fn spec_value_at(self, k: u64) -> u64 {
        self.pairs()[choose|i: int| 0 <= i < self.pairs().len() && self.pairs()[i].0 == k].1
    }

    /// An entry's value is the value the map view assigns to its key.
    pub proof fn lemma_entry_value(self, i: int)
        requires
            self.wf(),
            0 <= i < self.pairs().len(),
        ensures
            self@.contains_key(self.pairs()[i].0),
            self@[self.pairs()[i].0] == self.pairs()[i].1,
    {
        let k = self.pairs()[i].0;
        assert(self.spec_contains_key(k));
        let j = choose|j: int| 0 <= j < self.pairs().len() && self.pairs()[j].0 == k;
        if i != j {
            assert(self.pairs()[i].0 != self.pairs()[j].0);
        }
    }

    /// An empty store: every lookup falls back to its default.
    pub fn new() -> (s: Self)
        ensures
            s.wf(),
            s@ == Map::<u64, u64>::empty(),
            s.pairs().len() == 0,
    {
        let s = LedgerStore { entries: Vec::new() };
        proof {
            assert(s@ =~= Map::<u64, u64>::empty());
        }
        s
    }

    /// Index of the entry holding `k`, if any.
    fn position(&self, k: u64) -> (r: Option<usize>)
        ensures
            match r {
                Some(i) => i < self.pairs().len() && self.pairs()[i as int].0 == k,
                None => forall|j: int| 0 <= j < self.pairs().len() ==> self.pairs()[j].0 != k,
            },
    {
        let mut i: usize = 0;
        while i < self.entries.len()
            invariant
                i <= self.pairs().len(),
                forall|j: int| 0 <= j < i ==> self.pairs()[j].0 != k,
            decreases self.pairs().len() - i,
        {
            if self.entries[i].0 == k {
                return Some(i);
            }
            i = i + 1;
        }
        None
    }

    /// The stored counter for `k`, if one is present.
    pub fn get(&self, k: u64) -> (r: Option<u64>)
        requires
            self.wf(),
        ensures
            r == if self@.contains_key(k) {
                Some(self@[k])
            } else {
                None::<u64>
            },
    {
        match self.position(k) {
            Some(i) => {
                proof {
                    self.lemma_entry_value(i as int);
                }
                Some(self.entries[i].1)
            },
            None => {
                proof {
                    assert(!self.spec_contains_key(k)) by {
                        if self.spec_contains_key(k) {
                            let i = choose|i: int|
                                0 <= i < self.pairs().len() && self.pairs()[i].0 == k;
                            assert(self.pairs()[i].0 != k);
                        }
                    }
                }
                None
            },
        }
    }

    /// The stored counter for `k`, or `default` if the key is absent.
    pub fn get_or_default(&self, k: u64, default: u64) -> (r: u64)
        requires
            self.wf(),
        ensures
            r == if self@.contains_key(k) {
                self@[k]
            } else {
                default
            },
    {
        match self.get(k) {
            Some(v) => v,
            None => default,
        }
    }

    /// Overwrites (or creates) the counter for `k`.
    pub fn set(&mut self, k: u64, v: u64)
        requires
            old(self).wf(),
        ensures
            final(self).wf(),
            final(self)@ == old(self)@.insert(k, v),
            old(self)@.contains_key(k) ==> final(self).pairs().len() == old(self).pairs().len(),
            !old(self)@.contains_key(k) ==> final(self).pairs() == old(self).pairs().push((k, v)),
    {
        let ghost pre = *self;
        match self.position(k) {
            Some(i) => {
                let ghost gi = i as int;
                self.entries[i] = (k, v);
                proof {
                    let post = *self;
                    assert(post.pairs() == pre.pairs().update(gi, (k, v)));
                    pre.lemma_entry_value(gi);
                    assert forall|a: int, b: int|
                        0 <= a < b < post.pairs().len() implies post.pairs()[a].0
                        != post.pairs()[b].0 by {
                        assert(pre.pairs()[a].0 != pre.pairs()[b].0);
                    }
                    assert_maps_equal!(post@, pre@.insert(k, v), k2 => {
                        if k2 == k {
                            assert(post.pairs()[gi].0 == k2);
                            assert(post.spec_contains_key(k2));
                            post.lemma_entry_value(gi);
                        } else {
                            if pre.spec_contains_key(k2) {
                                let j = choose|j: int|
                                    0 <= j < pre.pairs().len() && pre.pairs()[j].0 == k2;
                                assert(post.pairs()[j].0 == k2);
                                assert(post.spec_contains_key(k2));
                                post.lemma_entry_value(j);
                                pre.lemma_entry_value(j);
                            }
                            if post.spec_contains_key(k2) {
                                let j = choose|j: int|
                                    0 <= j < post.pairs().len() && post.pairs()[j].0 == k2;
                                assert(pre.pairs()[j].0 == k2);
                                assert(pre.spec_contains_key(k2));
                            }
                        }
                    });
                }
            },
            None => {
                proof {
                    assert(!pre.spec_contains_key(k)) by {
                        if pre.spec_contains_key(k) {
                            let i = choose|i: int|
                                0 <= i < pre.pairs().len() && pre.pairs()[i].0 == k;
                            assert(pre.pairs()[i].0 != k);
                        }
                    }
                }
                self.entries.push((k, v));
                proof {
                    let post = *self;
                    let n = pre.pairs().len() as int;
                    assert(post.pairs() == pre.pairs().push((k, v)));
                    assert forall|a: int, b: int|
                        0 <= a < b < post.pairs().len() implies post.pairs()[a].0
                        != post.pairs()[b].0 by {
                        if b < n {
                            assert(pre.pairs()[a].0 != pre.pairs()[b].0);
                        } else {
                            assert(post.pairs()[b] == (k, v));
                            if pre.pairs()[a].0 == k {
                                assert(pre.spec_contains_key(k));
                            }
                        }
                    }
                    assert_maps_equal!(post@, pre@.insert(k, v), k2 => {
                        if k2 == k {
                            assert(post.pairs()[n].0 == k2);
                            assert(post.spec_contains_key(k2));
                            post.lemma_entry_value(n);
                        } else {
                            if pre.spec_contains_key(k2) {
                                let j = choose|j: int|
                                    0 <= j < pre.pairs().len() && pre.pairs()[j].0 == k2;
                                assert(post.pairs()[j].0 == k2);
                                assert(post.spec_contains_key(k2));
                                post.lemma_entry_value(j);
                                pre.lemma_entry_value(j);
                            }
                            if post.spec_contains_key(k2) {
                                let j = choose|j: int|
                                    0 <= j < post.pairs().len() && post.pairs()[j].0 == k2;
                                assert(j < n);
                                assert(pre.pairs()[j].0 == k2);
                                assert(pre.spec_contains_key(k2));
                            }
                        }
                    });
                }
            },
        }
    }

    /// A consistent-at-a-point-in-time dump of every pair, in store order,
    /// for the backup exporter.
    pub fn export(&self) -> (r: &Vec<(u64, u64)>)
        ensures
            r@ == self.pairs(),
    {
        &self.entries
    }
}

} // verus!
