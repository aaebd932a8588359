//! Counting the elements of a sequence that satisfy a predicate.

use vstd::prelude::*;

verus! {

/// How many elements of `s` satisfy `p`.
pub open spec fn count_where<A>(s: Seq<A>, p: spec_fn(A) -> bool) -> nat {
    s.filter(p).len()
}

pub open spec fn one_if(b: bool) -> nat {
    if b {
        1
    } else {
        0
    }
}

pub proof fn lemma_count_empty<A>(p: spec_fn(A) -> bool)
    ensures
        count_where(Seq::<A>::empty(), p) == 0,
{
    reveal(Seq::filter);
}

pub proof fn lemma_count_push<A>(s: Seq<A>, a: A, p: spec_fn(A) -> bool)
    ensures
        count_where(s.push(a), p) == count_where(s, p) + one_if(p(a)),
{
    s.lemma_filter_push(a, p);
}

/// Counting a prefix one element further.
pub proof fn lemma_count_take_next<A>(s: Seq<A>, k: int, p: spec_fn(A) -> bool)
    requires
        0 <= k < s.len(),
    ensures
        count_where(s.take(k + 1), p) == count_where(s.take(k), p) + one_if(p(s[k])),
{
    assert(s.take(k + 1) =~= s.take(k).push(s[k]));
    lemma_count_push(s.take(k), s[k], p);
}

pub proof fn lemma_count_bound<A>(s: Seq<A>, p: spec_fn(A) -> bool)
    ensures
        count_where(s, p) <= s.len(),
{
    s.lemma_filter_len(p);
}

/// Replacing one element changes the count by that element's share only.
pub proof fn lemma_count_update<A>(s: Seq<A>, i: int, a: A, p: spec_fn(A) -> bool)
    requires
        0 <= i < s.len(),
    ensures
        count_where(s.update(i, a), p) + one_if(p(s[i])) == count_where(s, p) + one_if(p(a)),
    decreases s.len(),
{
    let t = s.update(i, a);
    assert(s =~= s.drop_last().push(s.last()));
    lemma_count_push(s.drop_last(), s.last(), p);
    if i == s.len() - 1 {
        assert(t =~= s.drop_last().push(a));
        lemma_count_push(s.drop_last(), a, p);
    } else {
        assert(t =~= s.drop_last().update(i, a).push(s.last()));
        lemma_count_push(s.drop_last().update(i, a), s.last(), p);
        lemma_count_update(s.drop_last(), i, a, p);
    }
}

/// The count is zero exactly when no element satisfies the predicate.
pub proof fn lemma_count_zero<A>(s: Seq<A>, p: spec_fn(A) -> bool)
    ensures
        count_where(s, p) == 0 <==> forall|i: int| 0 <= i < s.len() ==> !p(#[trigger] s[i]),
    decreases s.len(),
{
    if s.len() == 0 {
        lemma_count_empty(p);
        assert(s =~= Seq::<A>::empty());
    } else {
        assert(s =~= s.drop_last().push(s.last()));
        lemma_count_push(s.drop_last(), s.last(), p);
        lemma_count_zero(s.drop_last(), p);
        if count_where(s, p) == 0 {
            assert forall|i: int| 0 <= i < s.len() implies !p(#[trigger] s[i]) by {
                if i < s.len() - 1 {
                    assert(s[i] == s.drop_last()[i]);
                }
            }
        } else {
            if !p(s.last()) {
                let front = s.drop_last();
                let j = choose|j: int| 0 <= j < front.len() && p(#[trigger] front[j]);
                assert(s[j] == s.drop_last()[j]);
            }
        }
    }
}

/// Filtering twice is filtering once by the narrower predicate.
pub proof fn lemma_filter_twice<A>(s: Seq<A>, p: spec_fn(A) -> bool, q: spec_fn(A) -> bool)
    requires
        forall|x: A| #[trigger] q(x) ==> p(x),
    ensures
        s.filter(p).filter(q) == s.filter(q),
    decreases s.len(),
{
    if s.len() == 0 {
        assert(s.filter(p) =~= s) by {
            s.lemma_filter_len(p);
        }
    } else {
        let front = s.drop_last();
        assert(s =~= front.push(s.last()));
        front.lemma_filter_push(s.last(), p);
        front.lemma_filter_push(s.last(), q);
        lemma_filter_twice(front, p, q);
        if p(s.last()) {
            front.filter(p).lemma_filter_push(s.last(), q);
        }
    }
}

/// Counting `q` among what a filter leaves, plus what the filter took,
/// is counting `q` among all, where the filter takes only elements that
/// satisfy `q`.
pub proof fn lemma_count_after_filter<A>(
    s: Seq<A>,
    keep: spec_fn(A) -> bool,
    gone: spec_fn(A) -> bool,
    q: spec_fn(A) -> bool,
)
    requires
        forall|x: A| #[trigger] keep(x) == !gone(x),
        forall|x: A| #[trigger] gone(x) ==> q(x),
    ensures
        count_where(s.filter(keep), q) + count_where(s, gone) == count_where(s, q),
    decreases s.len(),
{
    if s.len() == 0 {
        assert(s.filter(keep) =~= s) by {
            s.lemma_filter_len(keep);
        }
        lemma_count_empty(gone);
        lemma_count_empty(q);
        assert(s =~= Seq::<A>::empty());
    } else {
        let front = s.drop_last();
        assert(s =~= front.push(s.last()));
        front.lemma_filter_push(s.last(), keep);
        lemma_count_push(front, s.last(), gone);
        lemma_count_push(front, s.last(), q);
        lemma_count_after_filter(front, keep, gone, q);
        if keep(s.last()) {
            lemma_count_push(front.filter(keep), s.last(), q);
        }
    }
}

/// What a filter leaves holds none of what it took.
pub proof fn lemma_filter_leaves_none<A>(
    s: Seq<A>,
    keep: spec_fn(A) -> bool,
    gone: spec_fn(A) -> bool,
)
    requires
        forall|x: A| #[trigger] keep(x) == !gone(x),
    ensures
        count_where(s.filter(keep), gone) == 0,
{
    let f = s.filter(keep);
    assert forall|i: int| 0 <= i < f.len() implies !gone(#[trigger] f[i]) by {
        s.lemma_filter_pred(keep, i);
    }
    lemma_count_zero(f, gone);
}

/// A filter never raises a count.
pub proof fn lemma_count_filter_le<A>(s: Seq<A>, keep: spec_fn(A) -> bool, q: spec_fn(A) -> bool)
    ensures
        count_where(s.filter(keep), q) <= count_where(s, q),
    decreases s.len(),
{
    if s.len() == 0 {
        assert(s.filter(keep) =~= s) by {
            s.lemma_filter_len(keep);
        }
    } else {
        let front = s.drop_last();
        assert(s =~= front.push(s.last()));
        front.lemma_filter_push(s.last(), keep);
        lemma_count_push(front, s.last(), q);
        lemma_count_filter_le(front, keep, q);
        if keep(s.last()) {
            lemma_count_push(front.filter(keep), s.last(), q);
        }
    }
}

/// Every element that a filter leaves stood in the sequence, and two that
/// it leaves stood there in the same order.
pub proof fn lemma_filter_keeps_order<A>(s: Seq<A>, keep: spec_fn(A) -> bool) -> (origin: Seq<int>)
    ensures
        origin.len() == s.filter(keep).len(),
        forall|a: int|
            0 <= a < origin.len() ==> 0 <= #[trigger] origin[a] < s.len() && s.filter(keep)[a]
                == s[origin[a]],
        forall|a: int, b: int|
            0 <= a < b < origin.len() ==> #[trigger] origin[a] < #[trigger] origin[b],
    decreases s.len(),
{
    if s.len() == 0 {
        s.lemma_filter_len(keep);
        Seq::empty()
    } else {
        let front = s.drop_last();
        assert(s =~= front.push(s.last()));
        front.lemma_filter_push(s.last(), keep);
        let earlier = lemma_filter_keeps_order(front, keep);
        if keep(s.last()) {
            earlier.push(s.len() - 1)
        } else {
            earlier
        }
    }
}

/// A filter that every element passes changes nothing.
pub proof fn lemma_filter_all<A>(s: Seq<A>, keep: spec_fn(A) -> bool)
    requires
        forall|i: int| 0 <= i < s.len() ==> keep(#[trigger] s[i]),
    ensures
        s.filter(keep) == s,
    decreases s.len(),
{
    if s.len() == 0 {
        assert(s.filter(keep) =~= s) by {
            s.lemma_filter_len(keep);
        }
    } else {
        let front = s.drop_last();
        assert(s =~= front.push(s.last()));
        front.lemma_filter_push(s.last(), keep);
        assert forall|i: int| 0 <= i < front.len() implies keep(#[trigger] front[i]) by {
            assert(front[i] == s[i]);
        }
        lemma_filter_all(front, keep);
        assert(keep(s[s.len() - 1]));
    }
}

} // verus!
