use feed_engine::freshness::last_updated;
use feed_engine::order::ordered_feed;
use feed_engine::ContentEntry;

fn entry(permalink: &str, date: Option<&str>, updated: Option<&str>) -> ContentEntry {
    ContentEntry {
        permalink: permalink.to_string(),
        date: date.map(|d| d.to_string()),
        updated: updated.map(|u| u.to_string()),
    }
}

#[test]
fn freshness_is_the_newest_date_without_updates() {
    let a = entry("/a", Some("2024-01-01"), None);
    let b = entry("/b", Some("2024-01-02"), None);
    let c = entry("/c", None, None);
    let feed = ordered_feed(vec![&a, &b, &c]);
    assert_eq!(last_updated(&feed), "2024-01-02");
}

#[test]
fn freshness_is_a_later_update() {
    let a = entry("/a", Some("2024-01-01"), Some("2024-03-01"));
    let b = entry("/b", Some("2024-01-02"), None);
    let feed = ordered_feed(vec![&a, &b]);
    assert_eq!(feed[0].permalink, "/b");
    assert_eq!(feed[1].permalink, "/a");
    assert_eq!(last_updated(&feed), "2024-03-01");
}

#[test]
fn freshness_ignores_an_earlier_update() {
    let a = entry("/a", Some("2024-01-01"), Some("2023-06-01"));
    let b = entry("/b", Some("2024-01-02"), Some("2024-01-01"));
    let feed = ordered_feed(vec![&a, &b]);
    assert_eq!(last_updated(&feed), "2024-01-02");
}

#[test]
fn freshness_is_the_latest_of_many_updates() {
    let a = entry("/a", Some("2024-01-01"), Some("2024-04-01"));
    let b = entry("/b", Some("2024-01-02"), Some("2024-06-15"));
    let c = entry("/c", Some("2024-01-03"), Some("2024-05-01"));
    let d = entry("/d", Some("2024-01-04"), None);
    let feed = ordered_feed(vec![&a, &b, &c, &d]);
    assert_eq!(last_updated(&feed), "2024-06-15");
}

#[test]
fn freshness_of_one_entry() {
    let a = entry("/a", Some("2024-01-01"), None);
    assert_eq!(last_updated(&vec![&a]), "2024-01-01");
    let b = entry("/b", Some("2024-01-01"), Some("2024-01-01"));
    assert_eq!(last_updated(&vec![&b]), "2024-01-01");
    let c = entry("/c", Some("2024-01-01"), Some("2024-01-01T00:00:01"));
    assert_eq!(last_updated(&vec![&c]), "2024-01-01T00:00:01");
}

#[test]
fn freshness_reads_the_date_of_the_first_entry_only() {
    let first = entry("/a", Some("2024-01-01"), None);
    let second = entry("/b", Some("2025-01-01"), None);
    assert_eq!(last_updated(&vec![&first, &second]), "2024-01-01");
}

#[test]
fn freshness_ignores_the_updates_of_undated_entries() {
    let a = entry("/a", Some("2024-01-01"), Some("2024-02-01"));
    let b = entry("/b", None, Some("2030-01-01"));
    let feed = ordered_feed(vec![&b, &a]);
    assert_eq!(feed.len(), 1);
    assert_eq!(last_updated(&feed), "2024-02-01");
}

#[test]
fn freshness_compares_times_of_day() {
    let a = entry("/a", Some("2024-01-01T08:00:00Z"), Some("2024-01-02T09:30:00Z"));
    let b = entry("/b", Some("2024-01-02T09:00:00Z"), None);
    let feed = ordered_feed(vec![&a, &b]);
    assert_eq!(feed[0].permalink, "/b");
    assert_eq!(last_updated(&feed), "2024-01-02T09:30:00Z");
}
