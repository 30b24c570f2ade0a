use feed_engine::context::{entry_count, serialize_entries};
use feed_engine::{ContentEntry, FeedContext};
use std::cell::RefCell;
use tera::Value;

fn entry(permalink: &str, date: &str) -> ContentEntry {
    ContentEntry { permalink: permalink.to_string(), date: Some(date.to_string()), updated: None }
}

fn text(s: &str) -> Value {
    Value::String(s.to_string())
}

#[test]
fn entry_count_is_the_smaller_of_limit_and_length() {
    assert_eq!(entry_count(Some(1), 2), 1);
    assert_eq!(entry_count(Some(2), 2), 2);
    assert_eq!(entry_count(Some(3), 2), 2);
    assert_eq!(entry_count(Some(0), 2), 0);
    assert_eq!(entry_count(Some(0), 0), 0);
    assert_eq!(entry_count(Some(usize::MAX), 7), 7);
}

#[test]
fn entry_count_without_a_limit_is_the_length() {
    assert_eq!(entry_count(None, 0), 0);
    assert_eq!(entry_count(None, 2), 2);
    assert_eq!(entry_count(None, usize::MAX), usize::MAX);
}

#[test]
fn serialize_takes_the_first_entries_in_order() {
    let b = entry("/b", "2024-01-02");
    let a = entry("/a", "2024-01-01");
    let feed = vec![&b, &a];
    let one = serialize_entries(&feed, Some(1), |e: &ContentEntry| text(&e.permalink));
    assert_eq!(one, vec![text("/b")]);
    let all = serialize_entries(&feed, None, |e: &ContentEntry| text(&e.permalink));
    assert_eq!(all, vec![text("/b"), text("/a")]);
    let more = serialize_entries(&feed, Some(10), |e: &ContentEntry| text(&e.permalink));
    assert_eq!(more, vec![text("/b"), text("/a")]);
    let none = serialize_entries(&feed, Some(0), |e: &ContentEntry| text(&e.permalink));
    assert!(none.is_empty());
}

#[test]
fn serialize_calls_once_for_each_entry_shown() {
    let c = entry("/c", "2024-01-03");
    let b = entry("/b", "2024-01-02");
    let a = entry("/a", "2024-01-01");
    let feed = vec![&c, &b, &a];
    let calls: RefCell<Vec<String>> = RefCell::new(Vec::new());
    let shown = serialize_entries(&feed, Some(2), |e: &ContentEntry| {
        calls.borrow_mut().push(e.permalink.clone());
        Value::Null
    });
    assert_eq!(shown.len(), 2);
    assert_eq!(*calls.borrow(), vec!["/c".to_string(), "/b".to_string()]);
}

#[test]
fn context_holds_the_five_entries() {
    let feed = FeedContext {
        last_updated: "2024-01-02".to_string(),
        pages: vec![text("/b"), Value::Bool(true)],
        config: text("the config"),
        lang: "en".to_string(),
        feed_url: "https://example.org/atom.xml".to_string(),
    };
    let context = feed.into_context();
    assert_eq!(context.get("last_updated"), Some(&text("2024-01-02")));
    assert_eq!(context.get("pages"), Some(&Value::Array(vec![text("/b"), Value::Bool(true)])));
    assert_eq!(context.get("config"), Some(&text("the config")));
    assert_eq!(context.get("lang"), Some(&text("en")));
    assert_eq!(context.get("feed_url"), Some(&text("https://example.org/atom.xml")));
    let mut object = tera::Map::new();
    object.insert("last_updated".to_string(), text("2024-01-02"));
    object.insert("pages".to_string(), Value::Array(vec![text("/b"), Value::Bool(true)]));
    object.insert("config".to_string(), text("the config"));
    object.insert("lang".to_string(), text("en"));
    object.insert("feed_url".to_string(), text("https://example.org/atom.xml"));
    assert_eq!(context.into_json(), Value::Object(object));
}

#[test]
fn context_of_an_empty_feed_context() {
    let feed = FeedContext {
        last_updated: String::new(),
        pages: Vec::new(),
        config: Value::Null,
        lang: String::new(),
        feed_url: String::new(),
    };
    let context = feed.into_context();
    assert_eq!(context.get("last_updated"), Some(&text("")));
    assert_eq!(context.get("pages"), Some(&Value::Array(Vec::new())));
    assert_eq!(context.get("config"), Some(&Value::Null));
    assert!(context.get("term").is_none());
}
