//! Stable sorting of table rows by a column key, as `slice::sort_by` does it:
//! rows that compare equal keep their relative order.
use vstd::prelude::*;
use vstd::seq_lib::{to_multiset_build, to_multiset_insert};

verus! {

/// Sort direction of a table column: `Default` restores the natural order.
#[derive(Clone, Copy, Debug, PartialEq, Eq, Structural)]
pub enum ColumnSort {
    Default,
    Ascending,
    Descending,
}

/// Rows that can be ordered by one of several keys, each a total preorder.
pub trait SortKey: Sized {
    /// The keys a row can be sorted by.
    type Key: Copy;

    /// `self` sorts no later than `other` under `key`.
    spec fn key_le(self, other: Self, key: Self::Key) -> bool;

    /// Executable form of `key_le`.
    fn le_by(&self, other: &Self, key: Self::Key) -> (r: bool)
        ensures
            r == self.key_le(*other, key),
    ;

    proof fn lemma_key_total(a: Self, b: Self, key: Self::Key)
        ensures
            a.key_le(b, key) || b.key_le(a, key),
    ;

    proof fn lemma_key_trans(a: Self, b: Self, c: Self, key: Self::Key)
        requires
            a.key_le(b, key),
            b.key_le(c, key),
        ensures
            a.key_le(c, key),
    ;
}

/// The rows that tie with `x` under `key`.
pub open spec fn ties_with<T: SortKey>(x: T, key: T::Key) -> spec_fn(T) -> bool {
    |r: T| r.key_le(x, key) && x.key_le(r, key)
}

/// Every row sorts no later than every row after it.
pub open spec fn sorted_by_key<T: SortKey>(s: Seq<T>, key: T::Key) -> bool {
    forall|i: int, j: int| 0 <= i < j < s.len() ==> #[trigger] s[i].key_le(s[j], key)
}

/// `out` holds the rows of `inp`, and rows that tie keep their order.
pub open spec fn keeps_ties_in_order<T: SortKey>(out: Seq<T>, inp: Seq<T>, key: T::Key) -> bool {
    forall|x: T| #[trigger] out.filter(ties_with(x, key)) == inp.filter(ties_with(x, key))
}

/// `out` is the stable sort of `inp` by `key`.
pub open spec fn stable_sorted<T: SortKey>(out: Seq<T>, inp: Seq<T>, key: T::Key) -> bool {
    &&& sorted_by_key(out, key)
    &&& keeps_ties_in_order(out, inp, key)
    &&& out.to_multiset() == inp.to_multiset()
    &&& out.len() == inp.len()
}

/// `out` is `inp` ordered as `plan` says: by a key, then reversed or not;
/// `None` keeps `inp` as it is.
pub open spec fn ordered_by_plan<T: SortKey>(out: Seq<T>, inp: Seq<T>, plan: Option<(T::Key, bool)>) -> bool {
    match plan {
        None => out == inp,
        Some((key, rev)) => if rev {
            stable_sorted(out.reverse(), inp, key)
        } else {
            stable_sorted(out, inp, key)
        },
    }
}

/// Ordering rows by a plan neither adds nor drops any.
pub proof fn lemma_plan_multiset<T: SortKey>(out: Seq<T>, inp: Seq<T>, plan: Option<(T::Key, bool)>)
    requires
        ordered_by_plan(out, inp, plan),
    ensures
        out.to_multiset() == inp.to_multiset(),
        out.len() == inp.len(),
{
    match plan {
        None => {},
        Some((key, rev)) => {
            if rev {
                out.lemma_reverse_to_multiset();
                vstd::seq_lib::to_multiset_len(out);
                vstd::seq_lib::to_multiset_len(inp);
            }
        },
    }
}

/// Every element of `out` is an element of `inp`.
pub proof fn lemma_plan_contains<T: SortKey>(out: Seq<T>, inp: Seq<T>, plan: Option<(T::Key, bool)>, i: int)
    requires
        ordered_by_plan(out, inp, plan),
        0 <= i < out.len(),
    ensures
        inp.contains(out[i]),
{
    lemma_plan_multiset(out, inp, plan);
    vstd::seq_lib::to_multiset_contains(out, out[i]);
    vstd::seq_lib::to_multiset_contains(inp, out[i]);
    assert(out.contains(out[i]));
}

/// Orders `v` as `plan` says.
pub fn order_by_plan<T: SortKey>(v: Vec<T>, plan: Option<(T::Key, bool)>) -> (r: Vec<T>)
    ensures
        ordered_by_plan(r@, v@, plan),
{
    match plan {
        None => v,
        Some((key, rev)) => {
            let sorted = stable_sort(v, key);
            if rev {
                let ghost s = sorted@;
                let r = reversed(sorted);
                assert(r@.reverse() =~= s);
                r
            } else {
                sorted
            }
        },
    }
}

proof fn lemma_filter_none<T>(s: Seq<T>, p: spec_fn(T) -> bool)
    requires
        forall|i: int| 0 <= i < s.len() ==> !p(#[trigger] s[i]),
    ensures
        s.filter(p) == Seq::<T>::empty(),
{
    s.lemma_all_neg_filter_empty(p);
    assert(s.filter(p) =~= Seq::<T>::empty());
}

/// Inserting `x` right after every row that sorts no later than it keeps the
/// sequence sorted and adds `x` at the end of its tie class.
proof fn lemma_insert_step<T: SortKey>(out: Seq<T>, p: int, x: T, key: T::Key, y: T)
    requires
        sorted_by_key(out, key),
        0 <= p <= out.len(),
        forall|j: int| 0 <= j < p ==> #[trigger] out[j].key_le(x, key),
        forall|j: int| p <= j < out.len() ==> !(#[trigger] out[j].key_le(x, key)),
    ensures
        sorted_by_key(out.insert(p, x), key),
        out.insert(p, x).filter(ties_with(y, key)) == out.filter(ties_with(y, key)).push(x)
            || !ties_with(y, key)(x),
        out.insert(p, x).filter(ties_with(y, key)) == out.filter(ties_with(y, key))
            || ties_with(y, key)(x),
{
    let s = out.insert(p, x);
    assert forall|i: int, j: int| 0 <= i < j < s.len() implies #[trigger] s[i].key_le(s[j], key) by {
        if j < p {
        } else if j == p {
        } else if i < p {
            assert(s[j] == out[j - 1]);
            assert(out[i].key_le(out[j - 1], key));
        } else if i == p {
            T::lemma_key_total(out[j - 1], x, key);
        } else {
            assert(s[i] == out[i - 1]);
        }
    }
    let pred = ties_with(y, key);
    let a = out.subrange(0, p);
    let b = out.subrange(p, out.len() as int);
    assert(out =~= a + b);
    assert(s =~= a.push(x) + b);
    Seq::filter_distributes_over_add(a, b, pred);
    Seq::filter_distributes_over_add(a.push(x), b, pred);
    a.lemma_filter_push(x, pred);
    if pred(x) {
        assert forall|i: int| 0 <= i < b.len() implies !pred(#[trigger] b[i]) by {
            assert(b[i] == out[p + i]);
            if pred(b[i]) {
                T::lemma_key_trans(b[i], y, x, key);
            }
        }
        lemma_filter_none(b, pred);
        assert(out.filter(pred) =~= a.filter(pred));
        assert(s.filter(pred) =~= a.filter(pred).push(x));
    } else {
        assert(s.filter(pred) =~= a.filter(pred) + b.filter(pred));
    }
}

/// One insertion step keeps the loop invariant of `stable_sort`.
proof fn lemma_sort_step<T: SortKey>(before: Seq<T>, orig: Seq<T>, k: int, p: int, x: T, key: T::Key)
    requires
        0 <= k < orig.len(),
        x == orig[k],
        sorted_by_key(before, key),
        keeps_ties_in_order(before, orig.take(k), key),
        before.to_multiset() == orig.take(k).to_multiset(),
        before.len() == k,
        0 <= p <= before.len(),
        forall|j: int| 0 <= j < p ==> #[trigger] before[j].key_le(x, key),
        p < before.len() ==> !before[p].key_le(x, key),
    ensures
        sorted_by_key(before.insert(p, x), key),
        keeps_ties_in_order(before.insert(p, x), orig.take(k + 1), key),
        before.insert(p, x).to_multiset() == orig.take(k + 1).to_multiset(),
        before.insert(p, x).len() == k + 1,
{
    assert forall|j: int| p <= j < before.len() implies !(#[trigger] before[j].key_le(x, key)) by {
        if j > p && before[j].key_le(x, key) {
            assert(before[p].key_le(before[j], key));
            T::lemma_key_trans(before[p], before[j], x, key);
        }
    }
    assert(orig.take(k + 1) =~= orig.take(k).push(x));
    assert forall|y: T| #[trigger] before.insert(p, x).filter(ties_with(y, key)) == orig.take(
        k + 1,
    ).filter(ties_with(y, key)) by {
        lemma_insert_step(before, p, x, key, y);
        orig.take(k).lemma_filter_push(x, ties_with(y, key));
    }
    lemma_insert_step(before, p, x, key, x);
    to_multiset_insert(before, p, x);
    to_multiset_build(orig.take(k), x);
}

/// Position after every row of `out` that sorts no later than `x`.
fn insertion_point<T: SortKey>(out: &Vec<T>, x: &T, key: T::Key) -> (p: usize)
    requires
        sorted_by_key(out@, key),
    ensures
        p <= out@.len(),
        forall|j: int| 0 <= j < p ==> #[trigger] out@[j].key_le(*x, key),
        p < out@.len() ==> !out@[p as int].key_le(*x, key),
{
    let mut p: usize = 0;
    while p < out.len() && out[p].le_by(x, key)
        invariant
            p <= out@.len(),
            forall|j: int| 0 <= j < p ==> #[trigger] out@[j].key_le(*x, key),
        decreases out@.len() - p,
    {
        p = p + 1;
    }
    p
}

/// Sorts `v` by `key`, stably (ties keep their order).
pub fn stable_sort<T: SortKey>(v: Vec<T>, key: T::Key) -> (r: Vec<T>)
    ensures
        stable_sorted(r@, v@, key),
{
    let ghost orig = v@;
    let mut src = v;
    let mut out: Vec<T> = Vec::new();
    let ghost mut k: int = 0;
    assert(orig.take(0) =~= Seq::<T>::empty());
    while src.len() > 0
        invariant
            0 <= k <= orig.len(),
            src@ == orig.skip(k),
            sorted_by_key(out@, key),
            keeps_ties_in_order(out@, orig.take(k), key),
            out@.to_multiset() == orig.take(k).to_multiset(),
            out@.len() == k,
        decreases src@.len(),
    {
        let x = src.remove(0);
        assert(x == orig[k]);
        let p = insertion_point(&out, &x, key);
        proof {
            lemma_sort_step(out@, orig, k, p as int, x, key);
        }
        out.insert(p, x);
        proof {
            k = k + 1;
            assert(src@ =~= orig.skip(k));
        }
    }
    assert(orig.take(k) =~= orig);
    out
}

/// Reverses `v`.
pub fn reversed<T>(v: Vec<T>) -> (r: Vec<T>)
    ensures
        r@ == v@.reverse(),
{
    let ghost orig = v@;
    let mut src = v;
    let mut out: Vec<T> = Vec::new();
    while src.len() > 0
        invariant
            src@ == orig.take(src@.len() as int),
            src@.len() <= orig.len(),
            out@ == orig.skip(src@.len() as int).reverse(),
        decreases src@.len(),
    {
        let ghost n = src@.len();
        let x = src.pop().unwrap();
        out.push(x);
        proof {
            assert(src@ =~= orig.take(src@.len() as int));
            assert(out@ =~= orig.skip(src@.len() as int).reverse());
        }
    }
    assert(orig.skip(0) =~= orig);
    out
}

} // verus!

verus! {

/// What ordering rows by a plan promises of each pair of rows: with a key
/// and no reversal an earlier row sorts no later than a later one; with
/// reversal a later row sorts no later than an earlier one.
pub proof fn lemma_plan_pairs<T: SortKey>(out: Seq<T>, inp: Seq<T>, key: T::Key, rev: bool, i: int, j: int)
    requires
        ordered_by_plan(out, inp, Some((key, rev))),
        0 <= i < j < out.len(),
    ensures
        !rev ==> out[i].key_le(out[j], key),
        rev ==> out[j].key_le(out[i], key),
{
    if rev {
        let r = out.reverse();
        let n = out.len() as int;
        assert(r[n - 1 - j] == out[j]);
        assert(r[n - 1 - i] == out[i]);
        assert(r[n - 1 - j].key_le(r[n - 1 - i], key));
    } else {
        assert(out[i].key_le(out[j], key));
    }
}

} // verus!
