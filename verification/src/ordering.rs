//! Putting rows and users in order.

use vstd::prelude::*;
use vstd::relations::{sorted_by, total_ordering};
use vstd::seq_lib::{lemma_sorted_unique, to_multiset_build, to_multiset_insert};

verus! {

/// A key to order by: three numbers, compared one after the other.
pub type SortKey = (u8, i64, u64);

/// Whether the first key comes before the second or equals it.
pub open spec fn key_leq(a: SortKey, b: SortKey) -> bool {
    a.0 < b.0 || (a.0 == b.0 && (a.1 < b.1 || (a.1 == b.1 && a.2 <= b.2)))
}

/// The order of the keys.
pub open spec fn by_key() -> spec_fn(SortKey, SortKey) -> bool {
    |a: SortKey, b: SortKey| key_leq(a, b)
}

/// The keys in rising order.
pub open spec fn in_order(keys: Seq<SortKey>) -> Seq<SortKey> {
    keys.sort_by(by_key())
}

/// The order of the keys is total.
pub proof fn lemma_key_order_total()
    ensures
        total_ordering(by_key()),
{
    let r = by_key();
    assert forall|x: SortKey, y: SortKey| #[trigger] r(x, y) && #[trigger] r(y, x) implies x
        == y by {
        assert(x.0 == y.0 && x.1 == y.1 && x.2 == y.2);
    }
    assert(vstd::relations::antisymmetric(r));
    assert(vstd::relations::reflexive(r));
    assert(vstd::relations::transitive(r));
    assert(vstd::relations::strongly_connected(r));
}

fn leq(a: &SortKey, b: &SortKey) -> (r: bool)
    ensures
        r == key_leq(*a, *b),
{
    a.0 < b.0 || (a.0 == b.0 && (a.1 < b.1 || (a.1 == b.1 && a.2 <= b.2)))
}

/// The keys in rising order.
pub fn sorted_keys(keys: Vec<SortKey>) -> (sorted: Vec<SortKey>)
    ensures
        sorted@ == in_order(keys@),
{
    let mut sorted: Vec<SortKey> = Vec::new();
    let mut k: usize = 0;
    assert(keys@.take(0) =~= Seq::<SortKey>::empty());
    while k < keys.len()
        invariant
            k <= keys.len(),
            sorted@.len() == k,
            sorted_by(sorted@, by_key()),
            sorted@.to_multiset() == keys@.take(k as int).to_multiset(),
        decreases keys.len() - k,
    {
        let key = keys[k];
        // The key goes behind the keys that come before it or equal it.
        let mut at: usize = 0;
        while at < sorted.len() && leq(&sorted[at], &key)
            invariant
                at <= sorted.len(),
                forall|i: int| 0 <= i < at ==> key_leq(#[trigger] sorted@[i], key),
            decreases sorted.len() - at,
        {
            at = at + 1;
        }
        let ghost before = sorted@;
        sorted.insert(at, key);
        proof {
            let after = sorted@;
            assert forall|i: int, j: int| 0 <= i < j < after.len() implies (by_key())(
                #[trigger] after[i],
                #[trigger] after[j],
            ) by {
                if j < at {
                    assert((by_key())(before[i], before[j]));
                } else if j == at {
                    assert(key_leq(before[i], key));
                } else if i < at {
                    assert((by_key())(before[i], before[j - 1]));
                } else if i == at {
                    assert(!key_leq(before[at as int], key));
                    if j - 1 > at {
                        assert((by_key())(before[at as int], before[j - 1]));
                    }
                } else {
                    assert((by_key())(before[i - 1], before[j - 1]));
                }
            }
            to_multiset_insert(before, at as int, key);
            assert(keys@.take(k + 1) =~= keys@.take(k as int).push(key));
            to_multiset_build(keys@.take(k as int), key);
        }
        k = k + 1;
    }
    proof {
        assert(keys@.take(k as int) =~= keys@);
        lemma_key_order_total();
        keys@.lemma_sort_by_ensures(by_key());
        lemma_sorted_unique(sorted@, in_order(keys@), by_key());
    }
    sorted
}

} // verus!
