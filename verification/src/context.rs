//! The template context of a feed.
//!
//! The context is tera's: a map from names to JSON values. Verus sees neither
//! inside a `Context` nor inside a `Value`, so the contracts speak of a
//! context through the map of its entries, [`context_entries`], and of the
//! values that the library makes through [`json_string`] and [`json_array`].

use crate::entry::ContentEntry;
use tera::{Context, Value};
use vstd::prelude::*;

verus! {

/// tera's `Context`, carried through as it is.
#[verifier::external_type_specification]
#[verifier::external_body]
pub struct ExContext(Context);

/// tera's `Value`, the JSON value of `serde_json`, carried through as it is.
#[verifier::external_type_specification]
#[verifier::external_body]
pub struct ExValue(Value);

/// The entries of a tera `Context`: the value stored under each name.
pub uninterp spec fn context_entries(context: Context) -> Map<Seq<char>, Value>;

/// The JSON string with the given characters: what `Value::from` gives for a
/// string slice.
pub uninterp spec fn json_string(text: Seq<char>) -> Value;

/// The JSON array of the given values: what `Value::from` gives for a vector
/// of values.
pub uninterp spec fn json_array(items: Seq<Value>) -> Value;

/// The entries of a context that holds nothing.
pub open spec fn no_entries() -> Map<Seq<char>, Value> {
    Map::empty()
}

/// Makes a context with tera's `Context::new`, which holds no entry.
#[verifier::external_body]
pub(crate) fn new_context() -> (context: Context)
    ensures
        context_entries(context) == no_entries(),
{
    Context::new()
}

/// Stores a value under a name with tera's `Context::insert`, which converts
/// the value to a `Value`, for a `Value` the value itself, and puts it into
/// the map under the name, in the place of what stood there. All other
/// entries stay.
#[verifier::external_body]
pub(crate) fn context_insert(context: &mut Context, name: &str, value: &Value)
    ensures
        context_entries(*final(context)) == context_entries(*old(context)).insert(name@, *value),
{
    context.insert(name, value);
}

/// Makes the JSON string of a text with `Value::from`, which for a string
/// slice gives `Value::String` of an owned copy.
#[verifier::external_body]
pub(crate) fn text_value(text: &str) -> (value: Value)
    ensures
        value == json_string(text@),
{
    Value::from(text)
}

/// Makes the JSON array of a list of values with `Value::from`, which for a
/// vector gives `Value::Array` of its items in their order.
#[verifier::external_body]
pub(crate) fn list_value(items: Vec<Value>) -> (value: Value)
    ensures
        value == json_array(items@),
{
    Value::from(items)
}

/// What a feed template is given.
pub struct FeedContext {
    /// Time of the last update of the feed.
    pub last_updated: String,
    /// The entries of the feed, newest first, each as its owner serialized it.
    pub pages: Vec<Value>,
    /// The site configuration, serialized for the language of the feed.
    pub config: Value,
    /// Language code of the feed.
    pub lang: String,
    /// Address of the feed itself.
    pub feed_url: String,
}

/// The content of a [`FeedContext`].
pub struct FeedContextView {
    pub last_updated: Seq<char>,
    pub pages: Seq<Value>,
    pub config: Value,
    pub lang: Seq<char>,
    pub feed_url: Seq<char>,
}

impl View for FeedContext {
    type V = FeedContextView;

    open spec fn view(&self) -> FeedContextView {
        FeedContextView {
            last_updated: self.last_updated@,
            pages: self.pages@,
            config: self.config,
            lang: self.lang@,
            feed_url: self.feed_url@,
        }
    }
}

/// The entries of the template context of a feed: five names, each with its
/// value.
pub open spec fn feed_context_entries(feed: FeedContextView) -> Map<Seq<char>, Value> {
    no_entries().insert("last_updated"@, json_string(feed.last_updated)).insert(
        "pages"@,
        json_array(feed.pages),
    ).insert("config"@, feed.config).insert("lang"@, json_string(feed.lang)).insert(
        "feed_url"@,
        json_string(feed.feed_url),
    )
}

/// The five names of a feed context are different, so each holds the value
/// that was put under it, and there is no sixth.
pub proof fn lemma_feed_context_lookup(feed: FeedContextView)
    ensures
        feed_context_entries(feed).dom() =~= set![
            "last_updated"@,
            "pages"@,
            "config"@,
            "lang"@,
            "feed_url"@,
        ],
        feed_context_entries(feed)["last_updated"@] == json_string(feed.last_updated),
        feed_context_entries(feed)["pages"@] == json_array(feed.pages),
        feed_context_entries(feed)["config"@] == feed.config,
        feed_context_entries(feed)["lang"@] == json_string(feed.lang),
        feed_context_entries(feed)["feed_url"@] == json_string(feed.feed_url),
{
    reveal_strlit("last_updated");
    reveal_strlit("pages");
    reveal_strlit("config");
    reveal_strlit("lang");
    reveal_strlit("feed_url");
    assert("last_updated"@.len() == 12);
    assert("pages"@.len() == 5);
    assert("config"@.len() == 6);
    assert("lang"@.len() == 4);
    assert("feed_url"@.len() == 8);
}

impl FeedContext {
    /// The tera context that holds this feed context, entry by entry.
    pub fn into_context(self) -> (context: Context)
        ensures
            context_entries(context) == feed_context_entries(self@),
    {
        let mut context = new_context();
        let last_updated = text_value(self.last_updated.as_str());
        context_insert(&mut context, "last_updated", &last_updated);
        let pages = list_value(self.pages);
        context_insert(&mut context, "pages", &pages);
        context_insert(&mut context, "config", &self.config);
        let lang = text_value(self.lang.as_str());
        context_insert(&mut context, "lang", &lang);
        let feed_url = text_value(self.feed_url.as_str());
        context_insert(&mut context, "feed_url", &feed_url);
        context
    }
}

/// How many entries a feed shows: all that there are, or as many as the limit
/// allows where one is set.
pub open spec fn retained_count(feed_limit: Option<usize>, available: nat) -> nat {
    match feed_limit {
        Some(limit) => if limit <= available {
            limit as nat
        } else {
            available
        },
        None => available,
    }
}

/// How many entries a feed shows: all that there are, or as many as the limit
/// allows where one is set.
pub fn entry_count(feed_limit: Option<usize>, available: usize) -> (count: usize)
    ensures
        count == retained_count(feed_limit, available as nat),
        count <= available,
{
    match feed_limit {
        Some(limit) => if limit <= available {
            limit
        } else {
            available
        },
        None => available,
    }
}

/// Serializes the entries that the feed shows: the first ones of the ordered
/// feed, as many as the limit allows, each once and in their order.
pub fn serialize_entries<'a, S>(
    pages: &Vec<&'a ContentEntry>,
    feed_limit: Option<usize>,
    serialize_page: S,
) -> (serialized: Vec<Value>) where S: Fn(&ContentEntry) -> Value
    requires
        forall|entry: &ContentEntry| call_requires(serialize_page, (entry,)),
    ensures
        serialized@.len() == retained_count(feed_limit, pages@.len()),
        forall|i: int|
            0 <= i < serialized@.len() ==> call_ensures(
                serialize_page,
                (pages@[i],),
                #[trigger] serialized@[i],
            ),
{
    let count = entry_count(feed_limit, pages.len());
    let mut serialized: Vec<Value> = Vec::new();
    let mut i: usize = 0;
    while i < count
        invariant
            i <= count <= pages.len(),
            serialized@.len() == i,
            forall|entry: &ContentEntry| call_requires(serialize_page, (entry,)),
            forall|k: int|
                0 <= k < i ==> call_ensures(serialize_page, (pages@[k],), #[trigger] serialized@[k]),
        decreases count - i,
    {
        let value = serialize_page(pages[i]);
        serialized.push(value);
        i += 1;
    }
    serialized
}

} // verus!
