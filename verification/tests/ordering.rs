use feed_engine::entry::filter_dated;
use feed_engine::order::{compare_entries, ordered_feed};
use feed_engine::text::text_lt;
use feed_engine::ContentEntry;
use std::cmp::Ordering;

fn entry(permalink: &str, date: Option<&str>, updated: Option<&str>) -> ContentEntry {
    ContentEntry {
        permalink: permalink.to_string(),
        date: date.map(|d| d.to_string()),
        updated: updated.map(|u| u.to_string()),
    }
}

fn permalinks(pages: &[&ContentEntry]) -> Vec<String> {
    pages.iter().map(|p| p.permalink.clone()).collect()
}

#[test]
fn text_order_is_by_first_difference() {
    assert!(text_lt("2024-01-01", "2024-01-02"));
    assert!(!text_lt("2024-01-02", "2024-01-01"));
    assert!(text_lt("2023-12-31", "2024-01-01"));
    assert!(text_lt("/a", "/b"));
}

#[test]
fn text_order_is_strict() {
    assert!(!text_lt("2024-01-01", "2024-01-01"));
    assert!(!text_lt("", ""));
}

#[test]
fn text_order_puts_a_prefix_first() {
    assert!(text_lt("", "a"));
    assert!(!text_lt("a", ""));
    assert!(text_lt("2024-01-01", "2024-01-01T10:00:00"));
    assert!(!text_lt("2024-01-01T10:00:00", "2024-01-01"));
}

#[test]
fn text_order_follows_code_points() {
    assert!(text_lt("z", "\u{e9}"));
    assert!(text_lt("\u{e9}", "\u{4e2d}"));
    assert!(text_lt("\u{ffff}", "\u{10000}"));
    assert!(text_lt("Z", "a"));
}

#[test]
fn filter_keeps_the_dated_entries_in_place() {
    let a = entry("/a", Some("2024-01-01"), None);
    let b = entry("/b", None, Some("2024-05-05"));
    let c = entry("/c", Some("2023-01-01"), None);
    let d = entry("/d", None, None);
    let kept = filter_dated(vec![&a, &b, &c, &d]);
    assert_eq!(permalinks(&kept), vec!["/a", "/c"]);
}

#[test]
fn filter_of_nothing_is_nothing() {
    let kept = filter_dated(Vec::new());
    assert!(kept.is_empty());
    let b = entry("/b", None, Some("2024-05-05"));
    let kept = filter_dated(vec![&b, &b]);
    assert!(kept.is_empty());
}

#[test]
fn compare_puts_the_newer_entry_first() {
    let old = entry("/a", Some("2024-01-01"), None);
    let new = entry("/b", Some("2024-01-02"), None);
    assert_eq!(compare_entries(&new, &old), Ordering::Less);
    assert_eq!(compare_entries(&old, &new), Ordering::Greater);
}

#[test]
fn compare_breaks_a_tie_by_permalink() {
    let a = entry("/a", Some("2024-01-01"), None);
    let b = entry("/b", Some("2024-01-01"), Some("2030-01-01"));
    assert_eq!(compare_entries(&a, &b), Ordering::Less);
    assert_eq!(compare_entries(&b, &a), Ordering::Greater);
    assert_eq!(compare_entries(&a, &a), Ordering::Equal);
}

#[test]
fn ordered_feed_is_newest_first() {
    let a = entry("/a", Some("2024-01-01"), None);
    let b = entry("/b", Some("2024-01-02"), None);
    let c = entry("/c", None, None);
    let feed = ordered_feed(vec![&a, &b, &c]);
    assert_eq!(permalinks(&feed), vec!["/b", "/a"]);
}

#[test]
fn ordered_feed_breaks_ties_by_permalink() {
    let x = entry("/x", Some("2024-02-01"), None);
    let m = entry("/m", Some("2024-02-01"), None);
    let a = entry("/a", Some("2024-02-01"), None);
    let late = entry("/zz", Some("2024-03-01"), None);
    let early = entry("/0", Some("2024-01-01"), None);
    let feed = ordered_feed(vec![&x, &early, &m, &late, &a]);
    assert_eq!(permalinks(&feed), vec!["/zz", "/a", "/m", "/x", "/0"]);
}

#[test]
fn ordered_feed_neighbours_are_in_order() {
    let mut entries = Vec::new();
    for i in 0..200u32 {
        let day = (i * 7919) % 28 + 1;
        let month = (i * 104729) % 12 + 1;
        let date = format!("2024-{:02}-{:02}", month, day);
        let dated = i % 5 != 0;
        entries.push(entry(&format!("/p/{}", (i * 31) % 200), if dated { Some(&date) } else { None }, None));
    }
    let feed = ordered_feed(entries.iter().collect());
    assert_eq!(feed.len(), 160);
    for pair in feed.windows(2) {
        let first = pair[0];
        let second = pair[1];
        assert!(first.date >= second.date);
        if first.date == second.date {
            assert!(first.permalink <= second.permalink);
        }
    }
}

#[test]
fn ordered_feed_does_not_depend_on_the_given_order() {
    let mut entries = Vec::new();
    for i in 0..60u32 {
        let date = format!("2024-01-{:02}", i % 9 + 1);
        entries.push(entry(&format!("/p/{:03}", i), if i % 4 == 0 { None } else { Some(&date) }, None));
    }
    let forward: Vec<&ContentEntry> = entries.iter().collect();
    let backward: Vec<&ContentEntry> = entries.iter().rev().collect();
    let mut shuffled: Vec<&ContentEntry> = Vec::new();
    for k in 0..60usize {
        shuffled.push(&entries[(k * 37) % 60]);
    }
    let first = permalinks(&ordered_feed(forward));
    let second = permalinks(&ordered_feed(backward));
    let third = permalinks(&ordered_feed(shuffled));
    assert_eq!(first.len(), 45);
    assert_eq!(first, second);
    assert_eq!(first, third);
}

#[test]
fn ordered_feed_keeps_each_dated_entry_once() {
    let a = entry("/a", Some("2024-01-01"), None);
    let b = entry("/b", Some("2024-01-02"), None);
    let c = entry("/c", Some("2024-01-03"), None);
    let feed = ordered_feed(vec![&a, &c, &b]);
    let mut seen = permalinks(&feed);
    seen.sort();
    assert_eq!(seen, vec!["/a", "/b", "/c"]);
}

#[test]
fn ordered_feed_of_undated_entries_is_empty() {
    let a = entry("/a", None, None);
    let b = entry("/b", None, Some("2024-01-02"));
    assert!(ordered_feed(vec![&a, &b]).is_empty());
    assert!(ordered_feed(Vec::new()).is_empty());
}
