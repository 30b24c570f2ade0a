//! The view of a taxonomy term that a per-term feed shows.

use vstd::prelude::*;

verus! {

/// What a feed reads of a taxonomy term.
#[derive(Debug)]
pub struct TaxonomyTerm {
    pub name: String,
    pub slug: String,
    pub permalink: String,
}

/// The text of a taxonomy term.
pub struct TermView {
    pub name: Seq<char>,
    pub slug: Seq<char>,
    pub permalink: Seq<char>,
}

impl View for TaxonomyTerm {
    type V = TermView;

    open spec fn view(&self) -> TermView {
        TermView { name: self.name@, slug: self.slug@, permalink: self.permalink@ }
    }
}

/// A borrowed view of a taxonomy term: its name, slug and permalink, read
/// from the term's own storage.
#[derive(Debug, Clone, PartialEq)]
pub struct SerializedFeedTaxonomyItem<'a> {
    name: &'a str,
    slug: &'a str,
    permalink: &'a str,
}

impl<'a> View for SerializedFeedTaxonomyItem<'a> {
    type V = TermView;

    closed spec fn view(&self) -> TermView {
        TermView { name: self.name@, slug: self.slug@, permalink: self.permalink@ }
    }
}

impl<'a> SerializedFeedTaxonomyItem<'a> {
    /// The view that shows the given name, slug and permalink.
    pub fn new(name: &'a str, slug: &'a str, permalink: &'a str) -> (projection: Self)
        ensures
            projection@ == (TermView { name: name@, slug: slug@, permalink: permalink@ }),
    {
        SerializedFeedTaxonomyItem { name, slug, permalink }
    }

    /// The view of the given term.
    pub fn from_item(item: &'a TaxonomyTerm) -> (projection: Self)
        ensures
            projection@ == item@,
    {
        SerializedFeedTaxonomyItem {
            name: item.name.as_str(),
            slug: item.slug.as_str(),
            permalink: item.permalink.as_str(),
        }
    }

    /// Name of the term.
    pub fn name(&self) -> (name: &'a str)
        ensures
            name@ == self@.name,
    {
        self.name
    }

    /// Slug of the term.
    pub fn slug(&self) -> (slug: &'a str)
        ensures
            slug@ == self@.slug,
    {
        self.slug
    }

    /// Permalink of the term.
    pub fn permalink(&self) -> (permalink: &'a str)
        ensures
            permalink@ == self@.permalink,
    {
        self.permalink
    }
}

} // verus!
