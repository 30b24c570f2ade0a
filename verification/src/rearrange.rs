//! Facts about sequences that hold the same elements in another order.
//!
//! Two sequences are rearrangements of one another when their multisets are
//! equal. Filtering both, or mapping both through one function, gives
//! rearrangements again.

use vstd::prelude::*;

verus! {

/// How often a value occurs after filtering: as often as before where the
/// filter keeps it, and not at all where it does not.
pub proof fn lemma_filter_count<A>(s: Seq<A>, keep: spec_fn(A) -> bool, x: A)
    ensures
        s.filter(keep).to_multiset().count(x) == if keep(x) {
            s.to_multiset().count(x)
        } else {
            0
        },
    decreases s.len(),
{
    broadcast use vstd::seq_lib::group_to_multiset_ensures;

    reveal(Seq::filter);
    if s.len() == 0 {
        assert(s.to_multiset().len() == 0);
    } else {
        let front = s.drop_last();
        lemma_filter_count(front, keep, x);
        assert(s =~= front.push(s.last()));
        assert(s.to_multiset() =~= front.to_multiset().insert(s.last()));
        if keep(s.last()) {
            assert(s.filter(keep).to_multiset() =~= front.filter(keep).to_multiset().insert(
                s.last(),
            ));
        }
    }
}

/// Filtering two rearrangements of one another gives two rearrangements of
/// one another.
pub proof fn lemma_filter_rearranged<A>(a: Seq<A>, b: Seq<A>, keep: spec_fn(A) -> bool)
    requires
        a.to_multiset() == b.to_multiset(),
    ensures
        a.filter(keep).to_multiset() == b.filter(keep).to_multiset(),
{
    assert forall|x: A|
        a.filter(keep).to_multiset().count(x) == b.filter(keep).to_multiset().count(x) by {
        lemma_filter_count(a, keep, x);
        lemma_filter_count(b, keep, x);
    }
    assert(a.filter(keep).to_multiset() =~= b.filter(keep).to_multiset());
}

/// Mapping two rearrangements of one another through the same function gives
/// two rearrangements of one another.
pub proof fn lemma_map_rearranged<A, B>(a: Seq<A>, b: Seq<A>, f: spec_fn(A) -> B)
    requires
        a.to_multiset() == b.to_multiset(),
    ensures
        a.map_values(f).to_multiset() == b.map_values(f).to_multiset(),
    decreases a.len(),
{
    broadcast use vstd::seq_lib::group_to_multiset_ensures;

    if a.len() == 0 {
        assert(b.to_multiset().len() == 0);
        assert(a.map_values(f) =~= b.map_values(f));
    } else {
        let last = a.last();
        assert(a.contains(last));
        assert(b.to_multiset().count(last) > 0);
        let j = choose|j: int| 0 <= j < b.len() && b[j] == last;
        let front = a.drop_last();
        let rest = b.remove(j);
        assert(front =~= a.remove(a.len() - 1));
        assert(front.to_multiset() =~= a.to_multiset().remove(last));
        assert(rest.to_multiset() =~= b.to_multiset().remove(last));
        lemma_map_rearranged(front, rest, f);
        assert(a.map_values(f) =~= front.map_values(f).push(f(last)));
        assert(b.map_values(f) =~= rest.map_values(f).insert(j, f(last)));
        vstd::seq_lib::to_multiset_insert(rest.map_values(f), j, f(last));
    }
}

} // verus!
