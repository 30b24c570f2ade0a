//! The time of the last update of a feed.
//!
//! It is the latest among the dates of last modification of all entries and
//! the date of the first, newest, entry. Dates are compared as text, which
//! agrees with their order in time only where all of them are written in one
//! fixed-width ISO-8601 format: whoever supplies the entries sees to that.

use crate::entry::{date_text, entry_views, is_dated, ContentEntry, EntryView};
use crate::text::{lemma_lex_le_total_order, lex_le, text_lt};
use vstd::prelude::*;

verus! {

/// `text` is one of the dates from which the time of the last update is
/// taken: the date of the first entry, or the date of last modification of
/// any entry.
pub open spec fn is_freshness_candidate(feed: Seq<EntryView>, text: Seq<char>) -> bool {
    ||| feed[0].date == Some(text)
    ||| exists|i: int| 0 <= i < feed.len() && (#[trigger] feed[i]).updated == Some(text)
}

/// `stamp` is the time of the last update of `feed`: one of the candidates,
/// and none of them is later.
pub open spec fn is_freshness(feed: Seq<EntryView>, stamp: Seq<char>) -> bool {
    &&& is_freshness_candidate(feed, stamp)
    &&& forall|text: Seq<char>| #[trigger]
        is_freshness_candidate(feed, text) ==> lex_le(text, stamp)
}

/// A feed has at most one time of last update.
pub proof fn lemma_freshness_unique(feed: Seq<EntryView>, a: Seq<char>, b: Seq<char>)
    requires
        is_freshness(feed, a),
        is_freshness(feed, b),
    ensures
        a == b,
{
    lemma_lex_le_total_order(a, b, a);
}

/// The latest among the date of the first entry and the dates of last
/// modification of the first `n` entries.
proof fn latest_among_first(feed: Seq<EntryView>, n: int) -> (stamp: Seq<char>)
    requires
        0 <= n <= feed.len(),
        feed.len() > 0,
        is_dated(feed[0]),
    ensures
        feed[0].date == Some(stamp) || exists|k: int|
            0 <= k < n && (#[trigger] feed[k]).updated == Some(stamp),
        lex_le(feed[0].date->0, stamp),
        forall|k: int|
            0 <= k < n && (#[trigger] feed[k]).updated is Some ==> lex_le(
                feed[k].updated->0,
                stamp,
            ),
    decreases n,
{
    if n == 0 {
        feed[0].date->0
    } else {
        let before = latest_among_first(feed, n - 1);
        let stamp = match feed[n - 1].updated {
            Some(updated) => if lex_le(updated, before) {
                before
            } else {
                updated
            },
            None => before,
        };
        assert forall|k: int|
            0 <= k < n && (#[trigger] feed[k]).updated is Some implies lex_le(
            feed[k].updated->0,
            stamp,
        ) by {
            lemma_lex_le_total_order(feed[k].updated->0, before, stamp);
            lemma_lex_le_total_order(before, stamp, before);
        }
        lemma_lex_le_total_order(before, stamp, before);
        lemma_lex_le_total_order(feed[0].date->0, before, stamp);
        stamp
    }
}

/// A feed whose first entry is dated has a time of last update.
pub proof fn lemma_freshness_exists(feed: Seq<EntryView>)
    requires
        feed.len() > 0,
        is_dated(feed[0]),
    ensures
        exists|stamp: Seq<char>| is_freshness(feed, stamp),
{
    let stamp = latest_among_first(feed, feed.len() as int);
    assert forall|text: Seq<char>| #[trigger]
        is_freshness_candidate(feed, text) implies lex_le(text, stamp) by {
        if feed[0].date != Some(text) {
            let k = choose|k: int|
                0 <= k < feed.len() && (#[trigger] feed[k]).updated == Some(text);
            assert(feed[k].updated is Some);
        }
    }
    assert(is_freshness(feed, stamp));
}

/// The time of the last update is no earlier than the date of the first
/// entry, and it is that date where no entry was modified.
pub proof fn lemma_freshness_from_first(feed: Seq<EntryView>, stamp: Seq<char>)
    requires
        feed.len() > 0,
        is_dated(feed[0]),
        is_freshness(feed, stamp),
    ensures
        lex_le(feed[0].date->0, stamp),
        (forall|i: int| 0 <= i < feed.len() ==> (#[trigger] feed[i]).updated is None) ==> stamp
            == feed[0].date->0,
{
    assert(is_freshness_candidate(feed, feed[0].date->0));
}

/// The time of the last update of a feed: the latest among the dates of last
/// modification of all its entries and the date of its first entry.
pub fn last_updated<'a>(pages: &Vec<&'a ContentEntry>) -> (stamp: &'a str)
    requires
        pages@.len() > 0,
        is_dated(pages@[0]@),
    ensures
        is_freshness(entry_views(pages@), stamp@),
{
    let ghost feed = entry_views(pages@);
    let mut stamp: &'a str = date_text(pages[0]);
    let mut i: usize = 0;
    while i < pages.len()
        invariant
            i <= pages.len(),
            feed == entry_views(pages@),
            feed.len() > 0,
            is_dated(feed[0]),
            lex_le(feed[0].date->0, stamp@),
            feed[0].date == Some(stamp@) || exists|k: int|
                0 <= k < i && (#[trigger] feed[k]).updated == Some(stamp@),
            forall|k: int|
                0 <= k < i && (#[trigger] feed[k]).updated is Some ==> lex_le(
                    feed[k].updated->0,
                    stamp@,
                ),
        decreases pages.len() - i,
    {
        let entry: &'a ContentEntry = pages[i];
        let ghost before = stamp@;
        assert(feed[i as int] == entry@);
        match &entry.updated {
            Some(updated) => {
                if text_lt(stamp, updated.as_str()) {
                    stamp = updated.as_str();
                }
                proof {
                    assert forall|k: int|
                        0 <= k < i + 1 && (#[trigger] feed[k]).updated is Some implies lex_le(
                        feed[k].updated->0,
                        stamp@,
                    ) by {
                        lemma_lex_le_total_order(feed[k].updated->0, before, stamp@);
                        lemma_lex_le_total_order(before, stamp@, before);
                    }
                    lemma_lex_le_total_order(feed[0].date->0, before, stamp@);
                }
            },
            None => {},
        }
        i += 1;
    }
    proof {
        assert forall|text: Seq<char>| #[trigger]
            is_freshness_candidate(feed, text) implies lex_le(text, stamp@) by {
            if feed[0].date != Some(text) {
                let k = choose|k: int|
                    0 <= k < feed.len() && (#[trigger] feed[k]).updated == Some(text);
                assert(feed[k].updated is Some);
            }
        }
    }
    stamp
}

} // verus!
