//! A set of row indices, kept in ascending order.
//!
//! The selection is walked to list the torrents an action applies to. A
//! `HashSet` would give those lists in whatever order its hashing walks
//! them, which vstd leaves unspecified; ascending order is one of those
//! orders and lets the lists be stated exactly.
use vstd::prelude::*;

verus! {

/// Strictly ascending.
pub open spec fn increasing(s: Seq<usize>) -> bool {
    forall|i: int, j: int| 0 <= i < j < s.len() ==> s[i] < s[j]
}

/// A finite set of indices; iteration goes in ascending order.
pub struct IndexSet {
    items: Vec<usize>,
}

impl View for IndexSet {
    type V = Set<usize>;

    closed spec fn view(&self) -> Set<usize> {
        self.items@.to_set()
    }
}

impl IndexSet {
    /// The members in ascending order.
    pub closed spec fn elems(&self) -> Seq<usize> {
        self.items@
    }

    /// Well-formed: the members are stored in strictly ascending order.
    pub closed spec fn wf(&self) -> bool {
        increasing(self.items@)
    }

    /// The ascending sequence of members lists exactly the set, once each.
    pub proof fn lemma_elems(&self)
        requires
            self.wf(),
        ensures
            increasing(self.elems()),
            self.elems().to_set() == self@,
            self.elems().no_duplicates(),
            self.elems().len() == self@.len(),
            forall|x: usize| self@.contains(x) <==> self.elems().contains(x),
            self@.finite(),
    {
        assert(self.items@.no_duplicates());
        self.items@.unique_seq_to_set();
    }

    /// The empty set.
    pub fn new() -> (r: Self)
        ensures
            r.wf(),
            r@ == Set::<usize>::empty(),
    {
        let r = IndexSet { items: Vec::new() };
        assert(r@ =~= Set::<usize>::empty());
        r
    }

    /// `{lo, lo + 1, ..., hi}`.
    pub fn range_inclusive(lo: usize, hi: usize) -> (r: Self)
        requires
            lo <= hi,
        ensures
            r.wf(),
            r@ == Set::new(|x: usize| lo <= x <= hi),
    {
        let mut items: Vec<usize> = Vec::new();
        let mut i: usize = lo;
        loop
            invariant_except_break
                lo <= i <= hi,
                items@.len() == i - lo,
                forall|k: int| 0 <= k < items@.len() ==> items@[k] == lo + k,
            ensures
                items@.len() == hi - lo + 1,
                forall|k: int| 0 <= k < items@.len() ==> items@[k] == lo + k,
            decreases hi - i,
        {
            items.push(i);
            if i == hi {
                break;
            }
            i = i + 1;
        }
        let r = IndexSet { items };
        assert forall|x: usize| r@.contains(x) <==> lo <= x <= hi by {
            if lo <= x <= hi {
                assert(r.items@[x - lo] == x);
                assert(r.items@.contains(x));
            }
            if r.items@.contains(x) {
                let k = choose|k: int| 0 <= k < r.items@.len() && r.items@[k] == x;
                assert(r.items@[k] == lo + k);
            }
        }
        assert(r@ =~= Set::new(|x: usize| lo <= x <= hi));
        r
    }

    /// Position of the first member that is `>= x`.
    fn lower_bound(&self, x: usize) -> (p: usize)
        requires
            self.wf(),
        ensures
            p <= self.items@.len(),
            forall|k: int| 0 <= k < p ==> self.items@[k] < x,
            p < self.items@.len() ==> self.items@[p as int] >= x,
    {
        let mut p: usize = 0;
        while p < self.items.len() && self.items[p] < x
            invariant
                p <= self.items@.len(),
                forall|k: int| 0 <= k < p ==> self.items@[k] < x,
            decreases self.items@.len() - p,
        {
            p = p + 1;
        }
        p
    }

    /// Whether `x` is a member.
    pub fn contains(&self, x: usize) -> (r: bool)
        requires
            self.wf(),
        ensures
            r == self@.contains(x),
    {
        let p = self.lower_bound(x);
        let r = p < self.items.len() && self.items[p] == x;
        proof {
            if !r {
                assert forall|k: int| 0 <= k < self.items@.len() implies self.items@[k] != x by {
                    if k >= p {
                        assert(self.items@[p as int] >= x);
                        if k > p {
                            assert(self.items@[p as int] < self.items@[k]);
                        }
                    }
                }
            }
        }
        r
    }

    /// Number of members.
    pub fn len(&self) -> (n: usize)
        requires
            self.wf(),
        ensures
            n == self@.len(),
    {
        proof {
            self.lemma_elems();
        }
        self.items.len()
    }

    /// Whether the set is empty.
    pub fn is_empty(&self) -> (r: bool)
        requires
            self.wf(),
        ensures
            r == (self@.len() == 0),
    {
        self.len() == 0
    }

    /// Adds `x`.
    pub fn insert(&mut self, x: usize)
        requires
            old(self).wf(),
        ensures
            final(self).wf(),
            final(self)@ == old(self)@.insert(x),
    {
        let p = self.lower_bound(x);
        if p < self.items.len() && self.items[p] == x {
            proof {
                assert(self@ =~= self@.insert(x));
            }
            return;
        }
        let ghost before = self.items@;
        self.items.insert(p, x);
        proof {
            assert forall|i: int, j: int| 0 <= i < j < self.items@.len() implies self.items@[i]
                < self.items@[j] by {
                if j < p {
                } else if j == p {
                } else if i < p {
                    assert(before[i] < before[j - 1]);
                } else if i == p {
                    assert(before[p as int] > x || before[p as int] == x);
                    if j - 1 > p {
                        assert(before[p as int] < before[j - 1]);
                    }
                } else {
                }
            }
            assert forall|y: usize| self.items@.to_set().contains(y) <==> before.to_set().insert(
                x,
            ).contains(y) by {
                if self.items@.contains(y) {
                    let k = choose|k: int| 0 <= k < self.items@.len() && self.items@[k] == y;
                    if k < p {
                        assert(before[k] == y);
                    } else if k > p {
                        assert(before[k - 1] == y);
                    }
                }
                if before.contains(y) {
                    let k = choose|k: int| 0 <= k < before.len() && before[k] == y;
                    if k < p {
                        assert(self.items@[k] == y);
                    } else {
                        assert(self.items@[k + 1] == y);
                    }
                }
                if y == x {
                    assert(self.items@[p as int] == x);
                }
            }
            assert(self@ =~= before.to_set().insert(x));
        }
    }

    /// Removes `x`.
    pub fn remove(&mut self, x: usize)
        requires
            old(self).wf(),
        ensures
            final(self).wf(),
            final(self)@ == old(self)@.remove(x),
    {
        let p = self.lower_bound(x);
        let ghost before = self.items@;
        if !(p < self.items.len() && self.items[p] == x) {
            proof {
                assert forall|k: int| 0 <= k < before.len() implies before[k] != x by {
                    if k > p {
                        assert(before[p as int] < before[k]);
                    }
                }
                assert(self@ =~= self@.remove(x));
            }
            return;
        }
        self.items.remove(p);
        proof {
            assert forall|i: int, j: int| 0 <= i < j < self.items@.len() implies self.items@[i]
                < self.items@[j] by {
                let bi = if i < p { i } else { i + 1 };
                let bj = if j < p { j } else { j + 1 };
                assert(self.items@[i] == before[bi]);
                assert(self.items@[j] == before[bj]);
            }
            assert forall|y: usize| self.items@.to_set().contains(y) <==> before.to_set().remove(
                x,
            ).contains(y) by {
                if self.items@.contains(y) {
                    let k = choose|k: int| 0 <= k < self.items@.len() && self.items@[k] == y;
                    let bk = if k < p { k } else { k + 1 };
                    assert(before[bk] == y);
                    assert(bk != p);
                    if y == x {
                        if bk < p {
                            assert(before[bk] < before[p as int]);
                        } else {
                            assert(before[p as int] < before[bk]);
                        }
                    }
                }
                if before.contains(y) && y != x {
                    let k = choose|k: int| 0 <= k < before.len() && before[k] == y;
                    assert(k != p);
                    if k < p {
                        assert(self.items@[k] == y);
                    } else {
                        assert(self.items@[k - 1] == y);
                    }
                }
            }
            assert(self@ =~= before.to_set().remove(x));
        }
    }

    /// Removes every member.
    pub fn clear(&mut self)
        ensures
            final(self).wf(),
            final(self)@ == Set::<usize>::empty(),
    {
        self.items.clear();
        proof {
            assert(self@ =~= Set::<usize>::empty());
        }
    }

    /// The member at position `i` in ascending order.
    pub fn get(&self, i: usize) -> (x: usize)
        requires
            self.wf(),
            i < self.elems().len(),
        ensures
            x == self.elems()[i as int],
    {
        self.items[i]
    }

    /// Number of members (the length of `elems`).
    pub fn count(&self) -> (n: usize)
        ensures
            n == self.elems().len(),
    {
        self.items.len()
    }
}

} // verus!
