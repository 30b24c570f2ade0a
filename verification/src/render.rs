//! Generating a feed.
//!
//! [`render_feed`] runs the stages in order: filter, sort, freshness, context,
//! extension, rendering. What only the site can do it does through the
//! functions that a [`Site`] holds: serializing a page and the
//! configuration, resolving a path to an address, rendering a template.

use crate::context::{
    context_entries, feed_context_entries, retained_count, serialize_entries, FeedContext,
    FeedContextView,
};
use crate::entry::{
    dated_entries, entry_views, is_dated, lemma_dated_empty, lemma_dated_entries_views,
    ContentEntry,
};
use crate::freshness::{is_freshness, last_updated, lemma_freshness_unique};
use crate::order::{
    is_ordered_feed, lemma_feed_order_deterministic, ordered_feed, permalinks_identify,
};
use crate::path::{feed_location, locate_feed};
use crate::rearrange::lemma_map_rearranged;
use tera::{Context, Value};
use vstd::prelude::*;

verus! {

/// The settings of a site that its feeds depend on.
#[derive(Debug)]
pub struct FeedConfig {
    /// The most entries that a feed shows; all of them where this is `None`.
    pub feed_limit: Option<usize>,
    /// File name of a feed, which is also the name of its template.
    pub feed_filename: String,
    /// The theme of the site, where templates may be found.
    pub theme: Option<String>,
}

/// What generating a feed needs of a site: its settings, and what the site
/// alone can do.
///
/// The functions are the site's own. The content store that
/// `serialize_page` reads is locked for reading by whoever makes the site,
/// for as long as the site is in use.
pub struct Site<S, C, P, R> {
    /// The settings.
    pub config: FeedConfig,
    /// Serializes a page, without its siblings.
    pub serialize_page: S,
    /// Serializes the configuration for a language.
    pub serialize_config: C,
    /// Resolves a path below the site to an absolute address.
    pub make_permalink: P,
    /// Renders the template of the given name with a context, looking into
    /// the given theme too.
    pub render_template: R,
}

/// The functions of the site can be called on every argument.
pub open spec fn site_is_total<S, C, P, R, E>(site: Site<S, C, P, R>) -> bool where
    S: Fn(&ContentEntry) -> Value,
    C: Fn(&str) -> Value,
    P: Fn(&str) -> String,
    R: Fn(&str, Context, &Option<String>) -> Result<String, E>,
 {
    &&& forall|entry: &ContentEntry| call_requires(site.serialize_page, (entry,))
    &&& forall|lang: &str| call_requires(site.serialize_config, (lang,))
    &&& forall|location: &str| call_requires(site.make_permalink, (location,))
    &&& forall|name: &str, context: Context, theme: &Option<String>|
        call_requires(site.render_template, (name, context, theme))
}

/// The values that pass from stage to stage while one feed is generated.
pub struct FeedRun<'a, E> {
    /// The ordered feed.
    pub feed: Seq<&'a ContentEntry>,
    /// What the template context is assembled from.
    pub assembled: FeedContextView,
    /// The context as assembled.
    pub context: Context,
    /// The context as extended.
    pub extended: Context,
    /// What rendering gave.
    pub rendered: Result<String, E>,
}

/// The characters of an optional path.
pub open spec fn optional_path(base_path: Option<&str>) -> Option<Seq<char>> {
    match base_path {
        Some(base) => Some(base@),
        None => None,
    }
}

/// `make_permalink` can resolve the location to the address.
pub open spec fn resolves_to<P: Fn(&str) -> String>(
    make_permalink: P,
    location: Seq<char>,
    address: Seq<char>,
) -> bool {
    exists|given: &str, made: String|
        given@ == location && made@ == address && #[trigger] call_ensures(
            make_permalink,
            (given,),
            made,
        )
}

/// `render_template` can give `rendered` for the template of that name, the
/// context and the theme.
pub open spec fn renders_to<E, R: Fn(&str, Context, &Option<String>) -> Result<String, E>>(
    render_template: R,
    template: Seq<char>,
    context: Context,
    theme: Option<String>,
    rendered: Result<String, E>,
) -> bool {
    exists|name: &str|
        name@ == template && #[trigger] call_ensures(
            render_template,
            (name, context, &theme),
            rendered,
        )
}

/// What a feed is once rendering has answered: the document, or the
/// renderer's error as it came.
pub open spec fn feed_outcome<E>(rendered: Result<String, E>) -> Result<Option<String>, E> {
    match rendered {
        Ok(document) => Ok(Some(document)),
        Err(error) => Err(error),
    }
}

/// `run` is a run of the feed generation on the given input: each stage got
/// what the stage before it gave, and gave what its contract allows.
pub open spec fn is_feed_run<'a, S, C, P, R, H, E>(
    run: FeedRun<'a, E>,
    site: Site<S, C, P, R>,
    all_pages: Seq<&'a ContentEntry>,
    lang: &str,
    base_path: Option<&str>,
    additional_context_fn: H,
) -> bool where
    S: Fn(&ContentEntry) -> Value,
    C: Fn(&str) -> Value,
    P: Fn(&str) -> String,
    R: Fn(&str, Context, &Option<String>) -> Result<String, E>,
    H: Fn(Context) -> Context,
 {
    // filter and sort: the dated entries, newest first, and at least one
    &&& run.feed.len() > 0
    &&& run.feed.to_multiset() == dated_entries(all_pages).to_multiset()
    &&& is_ordered_feed(entry_views(run.feed))
    // freshness
    &&& is_freshness(entry_views(run.feed), run.assembled.last_updated)
    // the entries shown: the first of the feed, each serialized once
    &&& run.assembled.pages.len() == retained_count(site.config.feed_limit, run.feed.len())
    &&& forall|i: int|
        0 <= i < run.assembled.pages.len() ==> call_ensures(
            site.serialize_page,
            (run.feed[i],),
            #[trigger] run.assembled.pages[i],
        )
    // configuration and language
    &&& call_ensures(site.serialize_config, (lang,), run.assembled.config)
    &&& run.assembled.lang == lang@
    // address of the feed
    &&& resolves_to(
        site.make_permalink,
        feed_location(optional_path(base_path), site.config.feed_filename@),
        run.assembled.feed_url,
    )
    // context, extension, rendering
    &&& context_entries(run.context) == feed_context_entries(run.assembled)
    &&& call_ensures(additional_context_fn, (run.context,), run.extended)
    &&& renders_to(
        site.render_template,
        site.config.feed_filename@,
        run.extended,
        site.config.theme,
        run.rendered,
    )
}

/// Two runs over the same entries, given in whatever order, show the same
/// feed: the same entries in the same order, the same time of last update,
/// as many serialized entries and the same language, as long as no two
/// different entries share a permalink. What the site's functions and the
/// extension give is theirs to decide.
pub proof fn lemma_feed_runs_agree<'a, S, C, P, R, H, E>(
    first: FeedRun<'a, E>,
    second: FeedRun<'a, E>,
    site: Site<S, C, P, R>,
    first_pages: Seq<&'a ContentEntry>,
    second_pages: Seq<&'a ContentEntry>,
    lang: &str,
    base_path: Option<&str>,
    additional_context_fn: H,
) where
    S: Fn(&ContentEntry) -> Value,
    C: Fn(&str) -> Value,
    P: Fn(&str) -> String,
    R: Fn(&str, Context, &Option<String>) -> Result<String, E>,
    H: Fn(Context) -> Context,

    requires
        entry_views(first_pages).to_multiset() == entry_views(second_pages).to_multiset(),
        permalinks_identify(entry_views(first_pages)),
        is_feed_run(first, site, first_pages, lang, base_path, additional_context_fn),
        is_feed_run(second, site, second_pages, lang, base_path, additional_context_fn),
    ensures
        entry_views(first.feed) == entry_views(second.feed),
        first.assembled.last_updated == second.assembled.last_updated,
        first.assembled.pages.len() == second.assembled.pages.len(),
        first.assembled.lang == second.assembled.lang,
{
    let view = |e: &ContentEntry| e@;
    lemma_map_rearranged(first.feed, dated_entries(first_pages), view);
    lemma_map_rearranged(second.feed, dated_entries(second_pages), view);
    lemma_dated_entries_views(first_pages);
    lemma_dated_entries_views(second_pages);
    lemma_feed_order_deterministic(
        entry_views(first_pages),
        entry_views(second_pages),
        entry_views(first.feed),
        entry_views(second.feed),
    );
    lemma_freshness_unique(
        entry_views(first.feed),
        first.assembled.last_updated,
        second.assembled.last_updated,
    );
    assert(first.feed.len() == entry_views(first.feed).len());
    assert(second.feed.len() == entry_views(second.feed).len());
}

/// What a feed is once rendering has answered: the document, or the
/// renderer's error as it came.
pub fn feed_result<E>(rendered: Result<String, E>) -> (result: Result<Option<String>, E>)
    ensures
        result == feed_outcome(rendered),
{
    match rendered {
        Ok(document) => Ok(Some(document)),
        Err(error) => Err(error),
    }
}

/// Generates the feed of the given entries.
///
/// Where no entry has a date there is no feed, which is no error, and none
/// of the functions is called. Otherwise the dated entries are ordered, the
/// newest are serialized, the context is assembled and extended once, and the
/// template named by the feed's file name is rendered. An error of the
/// renderer is returned as it came.
pub fn render_feed<'a, S, C, P, R, H, E>(
    site: &Site<S, C, P, R>,
    all_pages: Vec<&'a ContentEntry>,
    lang: &str,
    base_path: Option<&str>,
    additional_context_fn: H,
) -> (result: Result<Option<String>, E>) where
    S: Fn(&ContentEntry) -> Value,
    C: Fn(&str) -> Value,
    P: Fn(&str) -> String,
    R: Fn(&str, Context, &Option<String>) -> Result<String, E>,
    H: Fn(Context) -> Context,

    requires
        site_is_total(*site),
        forall|context: Context| call_requires(additional_context_fn, (context,)),
    ensures
        (forall|i: int| 0 <= i < all_pages@.len() ==> !is_dated(#[trigger] all_pages@[i]@))
            <==> result matches Ok(None),
        !(result matches Ok(None)) ==> exists|run: FeedRun<'a, E>|
            result == feed_outcome(run.rendered) && #[trigger] is_feed_run(
                run,
                *site,
                all_pages@,
                lang,
                base_path,
                additional_context_fn,
            ),
{
    let ghost given = all_pages@;
    proof {
        lemma_dated_empty(given);
    }
    let pages = ordered_feed(all_pages);
    if pages.len() == 0 {
        return Ok(None);
    }
    proof {
        assert(is_dated(entry_views(pages@)[0]));
    }
    let stamp = last_updated(&pages);
    let serialized = serialize_entries(&pages, site.config.feed_limit, &site.serialize_page);
    let config = (site.serialize_config)(lang);
    let location = locate_feed(base_path, site.config.feed_filename.as_str());
    let asked = location.as_str();
    let feed_url = (site.make_permalink)(asked);
    let assembled = FeedContext {
        last_updated: stamp.to_owned(),
        pages: serialized,
        config,
        lang: lang.to_owned(),
        feed_url,
    };
    let ghost assembled_view = assembled@;
    let context = assembled.into_context();
    let ghost built = context;
    let extended = additional_context_fn(context);
    let ghost handed = extended;
    let name = site.config.feed_filename.as_str();
    let rendered = (site.render_template)(name, extended, &site.config.theme);
    proof {
        let run = FeedRun {
            feed: pages@,
            assembled: assembled_view,
            context: built,
            extended: handed,
            rendered,
        };
        assert(call_ensures(site.make_permalink, (asked,), feed_url));
        assert(call_ensures(site.render_template, (name, handed, &site.config.theme), rendered));
        assert(is_feed_run(run, *site, given, lang, base_path, additional_context_fn));
    }
    feed_result(rendered)
}

} // verus!
