//! The order of a feed: newest first, and by permalink among equal dates.

use crate::entry::{
    all_dated, date_text, dated_entries, dated_views, entry_views, filter_dated, is_dated,
    ContentEntry, EntryView,
};
use crate::rearrange::{lemma_filter_rearranged, lemma_map_rearranged};
use crate::text::{
    compare_text, lemma_lex_irreflexive, lemma_lex_le_total_order, lemma_lex_transitive, lex_le,
    lex_lt,
};
use rayon::slice::ParallelSliceMut;
use std::cmp::Ordering;
use vstd::prelude::*;

verus! {

/// `a` stands strictly before `b` in a feed: it is newer, or as new with the
/// smaller permalink. Meant for dated entries.
pub open spec fn feed_lt(a: EntryView, b: EntryView) -> bool {
    lex_lt(b.date->0, a.date->0) || (a.date->0 == b.date->0 && lex_lt(a.permalink, b.permalink))
}

/// `a` and `b` take the same place in a feed: same date, same permalink.
pub open spec fn feed_eq(a: EntryView, b: EntryView) -> bool {
    a.date->0 == b.date->0 && a.permalink == b.permalink
}

/// `a` may stand before `b` in a feed.
pub open spec fn feed_le(a: EntryView, b: EntryView) -> bool {
    feed_lt(a, b) || feed_eq(a, b)
}

/// The entry at `i` and its successor are in feed order, said the plain way:
/// the date does not grow, and where it stays the permalink does not shrink.
pub open spec fn in_order_at(feed: Seq<EntryView>, i: int) -> bool {
    &&& lex_le(feed[i + 1].date->0, feed[i].date->0)
    &&& feed[i].date->0 == feed[i + 1].date->0 ==> lex_le(
        feed[i].permalink,
        feed[i + 1].permalink,
    )
}

/// Every entry and its successor are in feed order.
pub open spec fn neighbours_in_order(feed: Seq<EntryView>) -> bool {
    forall|i: int| 0 <= i && i + 1 < feed.len() ==> #[trigger] in_order_at(feed, i)
}

/// An ordered feed: every entry is dated, and each may stand before all that
/// follow it.
pub open spec fn is_ordered_feed(feed: Seq<EntryView>) -> bool {
    &&& all_dated(feed)
    &&& forall|i: int, j: int| 0 <= i < j < feed.len() ==> feed_le(feed[i], feed[j])
}

/// No two different entries of the sequence share a permalink.
pub open spec fn permalinks_identify(entries: Seq<EntryView>) -> bool {
    forall|a: EntryView, b: EntryView|
        entries.contains(a) && entries.contains(b) && a.permalink == b.permalink ==> a == b
}

/// `feed` is the ordered feed of `entries`: the dated ones among them, each as
/// often as it was given, in feed order.
pub open spec fn is_feed_of(feed: Seq<EntryView>, entries: Seq<EntryView>) -> bool {
    &&& is_ordered_feed(feed)
    &&& feed.to_multiset() == dated_views(entries).to_multiset()
}

/// Exactly one of "before", "same place" and "after" holds of two entries.
pub proof fn lemma_feed_order_trichotomy(a: EntryView, b: EntryView)
    ensures
        feed_lt(a, b) || feed_eq(a, b) || feed_lt(b, a),
        !(feed_lt(a, b) && feed_eq(a, b)),
        !(feed_lt(a, b) && feed_lt(b, a)),
        !(feed_lt(b, a) && feed_eq(a, b)),
        feed_le(a, b) <==> !feed_lt(b, a),
{
    lemma_lex_le_total_order(a.date->0, b.date->0, a.date->0);
    lemma_lex_le_total_order(a.permalink, b.permalink, a.permalink);
    lemma_lex_le_total_order(b.date->0, a.date->0, a.date->0);
    lemma_lex_le_total_order(b.permalink, a.permalink, a.permalink);
}

/// The feed order passes along a chain.
pub proof fn lemma_feed_le_transitive(a: EntryView, b: EntryView, c: EntryView)
    requires
        feed_le(a, b),
        feed_le(b, c),
    ensures
        feed_le(a, c),
{
    if lex_lt(b.date->0, a.date->0) && lex_lt(c.date->0, b.date->0) {
        lemma_lex_transitive(c.date->0, b.date->0, a.date->0);
    }
    if lex_lt(a.permalink, b.permalink) && lex_lt(b.permalink, c.permalink) {
        lemma_lex_transitive(a.permalink, b.permalink, c.permalink);
    }
}

/// A sequence of dated entries is an ordered feed exactly when every entry
/// and its successor are in feed order.
pub proof fn lemma_ordered_by_neighbours(feed: Seq<EntryView>)
    requires
        all_dated(feed),
    ensures
        is_ordered_feed(feed) <==> neighbours_in_order(feed),
{
    if is_ordered_feed(feed) {
        assert forall|i: int| 0 <= i && i + 1 < feed.len() implies #[trigger] in_order_at(
            feed,
            i,
        ) by {
            assert(feed_le(feed[i], feed[i + 1]));
            lemma_feed_order_trichotomy(feed[i], feed[i + 1]);
            lemma_lex_le_total_order(feed[i + 1].date->0, feed[i].date->0, feed[i].date->0);
        }
    }
    if neighbours_in_order(feed) {
        assert forall|i: int, j: int| 0 <= i < j < feed.len() implies feed_le(
            feed[i],
            feed[j],
        ) by {
            lemma_reach_by_neighbours(feed, i, j);
        }
    }
}

/// Where neighbours are in order, an entry may stand before any later one.
proof fn lemma_reach_by_neighbours(feed: Seq<EntryView>, i: int, j: int)
    requires
        neighbours_in_order(feed),
        0 <= i < j < feed.len(),
    ensures
        feed_le(feed[i], feed[j]),
    decreases j - i,
{
    assert(in_order_at(feed, j - 1));
    lemma_lex_le_total_order(feed[j].date->0, feed[j - 1].date->0, feed[j].date->0);
    lemma_lex_irreflexive(feed[j].date->0);
    assert(feed_le(feed[j - 1], feed[j]));
    if i < j - 1 {
        lemma_reach_by_neighbours(feed, i, j - 1);
        lemma_feed_le_transitive(feed[i], feed[j - 1], feed[j]);
    }
}

/// Where no two different entries share a permalink, the order of a feed is
/// strict: of two different entries the earlier one stands strictly before
/// the later one.
pub proof fn lemma_ordered_feed_strict(feed: Seq<EntryView>, i: int, j: int)
    requires
        is_ordered_feed(feed),
        permalinks_identify(feed),
        0 <= i < j < feed.len(),
        feed[i] != feed[j],
    ensures
        feed_lt(feed[i], feed[j]),
{
    assert(feed_le(feed[i], feed[j]));
    assert(feed.contains(feed[i]) && feed.contains(feed[j]));
}

/// Two ordered feeds that hold the same entries are the same sequence, as
/// long as no two different entries share a permalink.
pub proof fn lemma_ordered_feed_unique(x: Seq<EntryView>, y: Seq<EntryView>)
    requires
        is_ordered_feed(x),
        is_ordered_feed(y),
        x.to_multiset() == y.to_multiset(),
        permalinks_identify(x),
    ensures
        x == y,
    decreases x.len(),
{
    broadcast use vstd::seq_lib::group_to_multiset_ensures;

    vstd::seq_lib::to_multiset_len(x);
    vstd::seq_lib::to_multiset_len(y);
    if x.len() == 0 {
        assert(x =~= y);
    } else {
        assert(y.contains(y[0]));
        assert(x.to_multiset().count(y[0]) > 0);
        let i = choose|i: int| 0 <= i < x.len() && x[i] == y[0];
        assert(x.contains(x[0]));
        assert(y.to_multiset().count(x[0]) > 0);
        let j = choose|j: int| 0 <= j < y.len() && y[j] == x[0];
        assert(x.contains(x[i]));
        if i > 0 && j > 0 {
            assert(feed_le(x[0], x[i]));
            assert(feed_le(y[0], y[j]));
            lemma_feed_order_trichotomy(x[0], x[i]);
        }
        assert(x[0] == y[0]);
        let xs = x.drop_first();
        let ys = y.drop_first();
        assert(xs =~= x.remove(0));
        assert(ys =~= y.remove(0));
        assert(xs.to_multiset() =~= x.to_multiset().remove(x[0]));
        assert(ys.to_multiset() =~= y.to_multiset().remove(y[0]));
        assert forall|k: int, l: int| 0 <= k < l < xs.len() implies feed_le(xs[k], xs[l]) by {
            assert(feed_le(x[k + 1], x[l + 1]));
        }
        assert forall|k: int, l: int| 0 <= k < l < ys.len() implies feed_le(ys[k], ys[l]) by {
            assert(feed_le(y[k + 1], y[l + 1]));
        }
        assert forall|k: int| 0 <= k < xs.len() implies is_dated(#[trigger] xs[k]) by {
            assert(is_dated(x[k + 1]));
        }
        assert forall|k: int| 0 <= k < ys.len() implies is_dated(#[trigger] ys[k]) by {
            assert(is_dated(y[k + 1]));
        }
        assert forall|a: EntryView, b: EntryView|
            xs.contains(a) && xs.contains(b) && a.permalink == b.permalink implies a == b by {
            let ka = choose|k: int| 0 <= k < xs.len() && xs[k] == a;
            let kb = choose|k: int| 0 <= k < xs.len() && xs[k] == b;
            assert(x[ka + 1] == a && x[kb + 1] == b);
            assert(x.contains(a) && x.contains(b));
        }
        lemma_ordered_feed_unique(xs, ys);
        assert(x =~= seq![x[0]] + xs);
        assert(y =~= seq![y[0]] + ys);
    }
}

/// The feed does not depend on the order in which the entries are given: two
/// sequences that hold the same entries, no two different ones under one
/// permalink, have the same ordered feed.
pub proof fn lemma_feed_order_deterministic(
    first: Seq<EntryView>,
    second: Seq<EntryView>,
    first_feed: Seq<EntryView>,
    second_feed: Seq<EntryView>,
)
    requires
        first.to_multiset() == second.to_multiset(),
        permalinks_identify(first),
        is_feed_of(first_feed, first),
        is_feed_of(second_feed, second),
    ensures
        first_feed == second_feed,
{
    broadcast use vstd::seq_lib::group_to_multiset_ensures;

    let keep = |e: EntryView| is_dated(e);
    lemma_filter_rearranged(first, second, keep);
    assert forall|a: EntryView, b: EntryView|
        first_feed.contains(a) && first_feed.contains(b) && a.permalink
            == b.permalink implies a == b by {
        assert(first_feed.to_multiset().count(a) > 0);
        assert(first_feed.to_multiset().count(b) > 0);
        assert(first.filter(keep).contains(a));
        assert(first.filter(keep).contains(b));
        first.lemma_filter_contains_rev(keep, a);
        first.lemma_filter_contains_rev(keep, b);
    }
    lemma_ordered_feed_unique(first_feed, second_feed);
}

/// Compares two dated entries for their place in a feed: the newer one comes
/// first, and of two with the same date the one with the smaller permalink.
pub fn compare_entries(a: &ContentEntry, b: &ContentEntry) -> (order: Ordering)
    requires
        is_dated(a@),
        is_dated(b@),
    ensures
        match order {
            Ordering::Less => feed_lt(a@, b@),
            Ordering::Equal => feed_eq(a@, b@),
            Ordering::Greater => feed_lt(b@, a@),
        },
{
    let by_date = compare_text(date_text(b), date_text(a));
    match by_date {
        Ordering::Equal => compare_text(a.permalink.as_str(), b.permalink.as_str()),
        Ordering::Less => Ordering::Less,
        Ordering::Greater => Ordering::Greater,
    }
}

/// Sorts dated entries into feed order with rayon's
/// `ParallelSliceMut::par_sort_unstable_by`, comparing with
/// [`compare_entries`]. Rayon documents that the slice is sorted by the
/// comparator where that is a total order, which
/// [`lemma_feed_order_trichotomy`] and [`lemma_feed_le_transitive`] show, and
/// that entries which compare equal may change places. The contract claims
/// that much: the same entries, each before all that it may stand before.
#[verifier::external_body]
pub(crate) fn sort_by_feed_order<'a>(pages: &mut Vec<&'a ContentEntry>)
    requires
        all_dated(entry_views(old(pages)@)),
    ensures
        final(pages)@.to_multiset() == old(pages)@.to_multiset(),
        is_ordered_feed(entry_views(final(pages)@)),
{
    pages.par_sort_unstable_by(|a, b| compare_entries(a, b));
}

/// The ordered feed of the given entries: those that carry a date, newest
/// first, and by permalink among equal dates.
pub fn ordered_feed<'a>(all_pages: Vec<&'a ContentEntry>) -> (pages: Vec<&'a ContentEntry>)
    ensures
        pages@.to_multiset() == dated_entries(all_pages@).to_multiset(),
        is_feed_of(entry_views(pages@), entry_views(all_pages@)),
        neighbours_in_order(entry_views(pages@)),
        pages@.len() == dated_entries(all_pages@).len(),
{
    let ghost given = all_pages@;
    let mut pages = filter_dated(all_pages);
    let ghost kept = pages@;
    sort_by_feed_order(&mut pages);
    proof {
        broadcast use vstd::seq_lib::group_to_multiset_ensures;

        lemma_map_rearranged(pages@, kept, |e: &ContentEntry| e@);
        vstd::seq_lib::to_multiset_len(pages@);
        vstd::seq_lib::to_multiset_len(kept);
        crate::entry::lemma_dated_entries_views(given);
        lemma_ordered_by_neighbours(entry_views(pages@));
    }
    pages
}

} // verus!
