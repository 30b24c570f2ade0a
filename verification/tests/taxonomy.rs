use feed_engine::{SerializedFeedTaxonomyItem, TaxonomyTerm};

#[test]
fn taxonomy_item_shows_the_term() {
    let term = TaxonomyTerm {
        name: "Rust lang".to_string(),
        slug: "rust-lang".to_string(),
        permalink: "https://example.org/tags/rust-lang/".to_string(),
    };
    let item = SerializedFeedTaxonomyItem::from_item(&term);
    assert_eq!(item.name(), "Rust lang");
    assert_eq!(item.slug(), "rust-lang");
    assert_eq!(item.permalink(), "https://example.org/tags/rust-lang/");
}

#[test]
fn taxonomy_item_borrows_from_the_term() {
    let term = TaxonomyTerm {
        name: "a".to_string(),
        slug: "b".to_string(),
        permalink: "c".to_string(),
    };
    let item = SerializedFeedTaxonomyItem::from_item(&term);
    assert!(std::ptr::eq(item.name().as_ptr(), term.name.as_ptr()));
    assert!(std::ptr::eq(item.slug().as_ptr(), term.slug.as_ptr()));
    assert!(std::ptr::eq(item.permalink().as_ptr(), term.permalink.as_ptr()));
}

#[test]
fn taxonomy_items_of_one_term_are_equal() {
    let term = TaxonomyTerm {
        name: "a".to_string(),
        slug: "b".to_string(),
        permalink: "c".to_string(),
    };
    let other = TaxonomyTerm {
        name: "a".to_string(),
        slug: "b".to_string(),
        permalink: "d".to_string(),
    };
    let item = SerializedFeedTaxonomyItem::from_item(&term);
    assert_eq!(item, item.clone());
    assert_eq!(item, SerializedFeedTaxonomyItem::from_item(&term));
    assert_ne!(item, SerializedFeedTaxonomyItem::from_item(&other));
}
