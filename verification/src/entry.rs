//! Content entries and the filter that keeps the dated ones.

use vstd::prelude::*;

verus! {

/// What the feed reads of one content item. How the item is written into
/// the feed is for the site to say, which serializes it.
#[derive(Debug)]
pub struct ContentEntry {
    /// Canonical address of the item; no two items share one.
    pub permalink: String,
    /// When the item was published, as fixed-width ISO-8601 text.
    pub date: Option<String>,
    /// When the item was last modified, in the same format.
    pub updated: Option<String>,
}

/// The text of a content entry.
pub struct EntryView {
    pub permalink: Seq<char>,
    pub date: Option<Seq<char>>,
    pub updated: Option<Seq<char>>,
}

/// The characters of an optional string.
pub open spec fn optional_text(text: Option<String>) -> Option<Seq<char>> {
    match text {
        Some(t) => Some(t@),
        None => None,
    }
}

impl View for ContentEntry {
    type V = EntryView;

    open spec fn view(&self) -> EntryView {
        EntryView {
            permalink: self.permalink@,
            date: optional_text(self.date),
            updated: optional_text(self.updated),
        }
    }
}

impl ContentEntry {
    /// Whether the entry carries a date and so belongs in a feed.
    pub fn has_date(&self) -> (dated: bool)
        ensures
            dated == is_dated(self@),
    {
        self.date.is_some()
    }
}

/// The date of a dated entry.
pub(crate) fn date_text<'a>(entry: &'a ContentEntry) -> (date: &'a str)
    requires
        is_dated(entry@),
    ensures
        date@ == entry@.date->0,
{
    match &entry.date {
        Some(date) => date.as_str(),
        None => vstd::pervasive::unreached(),
    }
}

/// An entry is eligible for the feed when it has a date.
pub open spec fn is_dated(entry: EntryView) -> bool {
    entry.date is Some
}

/// The views of a sequence of borrowed entries, in the same order.
pub open spec fn entry_views(entries: Seq<&ContentEntry>) -> Seq<EntryView> {
    entries.map_values(|e: &ContentEntry| e@)
}

/// The dated entries of a sequence, in the order in which they stand.
pub open spec fn dated_entries(entries: Seq<&ContentEntry>) -> Seq<&ContentEntry> {
    entries.filter(|e: &ContentEntry| is_dated(e@))
}

/// The dated views of a sequence of views, in the order in which they stand.
pub open spec fn dated_views(entries: Seq<EntryView>) -> Seq<EntryView> {
    entries.filter(|e: EntryView| is_dated(e))
}

/// Every entry of the sequence has a date.
pub open spec fn all_dated(entries: Seq<EntryView>) -> bool {
    forall|i: int| 0 <= i < entries.len() ==> is_dated(#[trigger] entries[i])
}

/// Filtering the entries and then viewing them gives the dated views.
pub proof fn lemma_dated_entries_views(entries: Seq<&ContentEntry>)
    ensures
        entry_views(dated_entries(entries)) == dated_views(entry_views(entries)),
        all_dated(entry_views(dated_entries(entries))),
    decreases entries.len(),
{
    reveal(Seq::filter);
    let keep = |e: &ContentEntry| is_dated(e@);
    if entries.len() == 0 {
        assert(entry_views(entries) =~= Seq::<EntryView>::empty());
        assert(entry_views(dated_entries(entries)) =~= Seq::<EntryView>::empty());
    } else {
        let front = entries.drop_last();
        lemma_dated_entries_views(front);
        assert(entry_views(entries).drop_last() =~= entry_views(front));
        assert(entry_views(entries).last() == entries.last()@);
        if is_dated(entries.last()@) {
            assert(entry_views(front.filter(keep).push(entries.last())) =~= entry_views(
                front.filter(keep),
            ).push(entries.last()@));
        }
    }
    let kept = entry_views(dated_entries(entries));
    assert forall|i: int| 0 <= i < kept.len() implies is_dated(#[trigger] kept[i]) by {
        entries.lemma_filter_pred(keep, i);
    }
}

/// Keeps the entries that carry a date, in the order in which they came.
pub fn filter_dated<'a>(all_pages: Vec<&'a ContentEntry>) -> (pages: Vec<&'a ContentEntry>)
    ensures
        pages@ == dated_entries(all_pages@),
        all_dated(entry_views(pages@)),
        pages@.len() == 0 <==> !exists|i: int|
            0 <= i < all_pages@.len() && is_dated(#[trigger] all_pages@[i]@),
{
    let mut pages: Vec<&'a ContentEntry> = Vec::new();
    let mut i: usize = 0;
    while i < all_pages.len()
        invariant
            i <= all_pages.len(),
            pages@ == dated_entries(all_pages@.take(i as int)),
        decreases all_pages.len() - i,
    {
        let entry: &'a ContentEntry = all_pages[i];
        proof {
            reveal(Seq::filter);
            assert(all_pages@.take(i + 1).drop_last() =~= all_pages@.take(i as int));
        }
        if entry.has_date() {
            pages.push(entry);
        }
        i += 1;
    }
    proof {
        assert(all_pages@.take(i as int) =~= all_pages@);
        lemma_dated_entries_views(all_pages@);
        lemma_dated_empty(all_pages@);
    }
    pages
}

/// The filter leaves nothing exactly when no entry has a date.
pub proof fn lemma_dated_empty(entries: Seq<&ContentEntry>)
    ensures
        dated_entries(entries).len() == 0 <==> !exists|i: int|
            0 <= i < entries.len() && is_dated(#[trigger] entries[i]@),
{
    let keep = |e: &ContentEntry| is_dated(e@);
    let kept = dated_entries(entries);
    if kept.len() > 0 {
        entries.lemma_filter_pred(keep, 0);
        assert(kept.contains(kept[0]));
        entries.lemma_filter_contains_rev(keep, kept[0]);
        let j = choose|j: int| 0 <= j < entries.len() && entries[j] == kept[0];
        assert(is_dated(entries[j]@));
    }
    if exists|i: int| 0 <= i < entries.len() && is_dated(#[trigger] entries[i]@) {
        let i = choose|i: int| 0 <= i < entries.len() && is_dated(#[trigger] entries[i]@);
        entries.lemma_filter_contains(keep, i);
    }
}

} // verus!
