//! Ordering of readings: a total preorder on a type, and a stable sort by it.

use vstd::prelude::*;

verus! {

/// A type whose values are ranked by a total preorder.
pub trait Ranked: Sized {
    /// `self` may stand before `other` in a sorted sequence.
    spec fn precedes(&self, other: &Self) -> bool;

    /// Any two values are comparable, and the relation is transitive.
    proof fn precedes_is_total_preorder()
        ensures
            forall|a: Self, b: Self| #[trigger] a.precedes(&b) || b.precedes(&a),
            forall|a: Self, b: Self, c: Self|
                #[trigger] a.precedes(&b) && #[trigger] b.precedes(&c) ==> a.precedes(&c),
    ;

    fn goes_first(&self, other: &Self) -> (first: bool)
        ensures
            first == self.precedes(other),
    ;
}

/// Every element may stand before every later one.
pub open spec fn is_sorted<T: Ranked>(s: Seq<T>) -> bool {
    forall|i: int, j: int| 0 <= i < j < s.len() ==> (#[trigger] s[i]).precedes(#[trigger] &s[j])
}

/// The values that rank equal to `w`.
pub open spec fn same_rank<T: Ranked>(w: T) -> spec_fn(T) -> bool {
    |y: T| y.precedes(&w) && w.precedes(&y)
}

/// `sorted` holds the items of `items`, in order, with equally ranked items
/// in the order they had in `items`.
pub open spec fn is_stable_sort_of<T: Ranked>(sorted: Seq<T>, items: Seq<T>) -> bool {
    &&& is_sorted(sorted)
    &&& sorted.to_multiset() == items.to_multiset()
    &&& forall|w: T| #[trigger] sorted.filter(same_rank(w)) == items.filter(same_rank(w))
}

proof fn lemma_filter_one<T>(x: T, pred: spec_fn(T) -> bool)
    ensures
        seq![x].filter(pred) == if pred(x) { seq![x] } else { Seq::<T>::empty() },
{
    reveal(Seq::filter);
    assert(seq![x].drop_last() =~= Seq::<T>::empty());
    assert(Seq::<T>::empty().filter(pred) =~= Seq::<T>::empty());
    assert(Seq::<T>::empty().push(x) =~= seq![x]);
}

/// Placing `x` at `at` keeps each class of equally ranked items in order,
/// provided no item before `at` ranks equal to `x`.
proof fn lemma_insert_keeps_classes<T: Ranked>(out: Seq<T>, at: int, x: T, w: T)
    requires
        0 <= at <= out.len(),
        forall|j: int| 0 <= j < at ==> !x.precedes(#[trigger] &out[j]),
    ensures
        out.insert(at, x).filter(same_rank(w)) == (seq![x] + out).filter(same_rank(w)),
{
    T::precedes_is_total_preorder();
    let pred = same_rank(w);
    let head = out.subrange(0, at);
    let tail = out.subrange(at, out.len() as int);
    assert(out =~= head + tail);
    assert(out.insert(at, x) =~= (head + seq![x]) + tail);
    Seq::filter_distributes_over_add(head, tail, pred);
    Seq::filter_distributes_over_add(head, seq![x], pred);
    Seq::filter_distributes_over_add(head + seq![x], tail, pred);
    Seq::filter_distributes_over_add(seq![x], out, pred);
    lemma_filter_one(x, pred);
    if pred(x) {
        assert(head.all(|y: T| !pred(y))) by {
            assert forall|j: int| 0 <= j < head.len() implies !pred(#[trigger] head[j]) by {
                assert(head[j] == out[j]);
                if pred(head[j]) {
                    assert(x.precedes(&w) && w.precedes(&head[j]));
                    assert(x.precedes(&out[j]));
                }
            }
        }
        head.lemma_all_neg_filter_empty(pred);
        assert(head.filter(pred) =~= Seq::<T>::empty());
        assert(head.filter(pred) + seq![x] =~= seq![x] + head.filter(pred));
    } else {
        assert(head.filter(pred) + Seq::<T>::empty() =~= head.filter(pred));
        assert(Seq::<T>::empty() + out.filter(pred) =~= out.filter(pred));
    }
}

/// Sorts `items` by rank. The sort is stable.
pub fn sort<T: Ranked>(items: Vec<T>) -> (sorted: Vec<T>)
    ensures
        is_stable_sort_of(sorted@, items@),
{
    let ghost all = items@;
    let mut rest = items;
    let mut out: Vec<T> = Vec::new();
    proof {
        T::precedes_is_total_preorder();
        assert(all.subrange(all.len() as int, all.len() as int) =~= Seq::<T>::empty());
    }
    while rest.len() > 0
        invariant
            rest@ == all.subrange(0, rest@.len() as int),
            rest@.len() <= all.len(),
            is_sorted(out@),
            out@.to_multiset() == all.subrange(rest@.len() as int, all.len() as int).to_multiset(),
            forall|w: T| #[trigger]
                out@.filter(same_rank(w)) == all.subrange(
                    rest@.len() as int,
                    all.len() as int,
                ).filter(same_rank(w)),
        decreases rest@.len(),
    {
        let ghost before = out@;
        let ghost done = all.subrange(rest@.len() as int, all.len() as int);
        let x = rest.pop().unwrap();
        let mut at: usize = 0;
        while at < out.len() && !x.goes_first(&out[at])
            invariant
                at <= out.len(),
                out@ == before,
                forall|j: int| 0 <= j < at ==> !x.precedes(#[trigger] &out[j]),
            decreases out.len() - at,
        {
            at += 1;
        }
        out.insert(at, x);
        proof {
            T::precedes_is_total_preorder();
            let now = all.subrange(rest@.len() as int, all.len() as int);
            assert(now =~= seq![x] + done);
            assert(rest@ =~= all.subrange(0, rest@.len() as int));
            before.insert_ensures(at as int, x);
            assert(is_sorted(out@)) by {
                assert forall|i: int, j: int| 0 <= i < j < out@.len() implies (#[trigger] out@[i]).precedes(
                    #[trigger] &out@[j],
                ) by {
                    if j < at {
                        assert(out@[i] == before[i] && out@[j] == before[j]);
                    } else if j == at {
                        assert(out@[i] == before[i]);
                        assert(!x.precedes(&before[i]));
                    } else if i < at {
                        assert(out@[i] == before[i] && out@[j] == before[j - 1]);
                    } else if i == at {
                        assert(out@[j] == before[j - 1]);
                        assert(x.precedes(&before[at as int]));
                        if j - 1 > at {
                            assert(before[at as int].precedes(&before[j - 1]));
                        }
                    } else {
                        assert(out@[i] == before[i - 1] && out@[j] == before[j - 1]);
                    }
                }
            }
            vstd::seq_lib::to_multiset_insert(before, at as int, x);
            vstd::seq_lib::to_multiset_insert(done, 0, x);
            assert(done.insert(0, x) =~= now);
            assert forall|w: T| #[trigger]
                out@.filter(same_rank(w)) == now.filter(same_rank(w)) by {
                lemma_insert_keeps_classes(before, at as int, x, w);
                Seq::filter_distributes_over_add(seq![x], before, same_rank(w));
                Seq::filter_distributes_over_add(seq![x], done, same_rank(w));
                assert(before.filter(same_rank(w)) == done.filter(same_rank(w)));
            }
        }
    }
    proof {
        assert(all.subrange(0, all.len() as int) =~= all);
    }
    out
}

} // verus!
