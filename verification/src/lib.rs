//! Feed generation for a content site.
//!
//! Given the entries of one language, the library keeps those that carry a
//! date, orders them newest first, derives the time of the last update and
//! assembles the template context from which a syndication document is
//! rendered. Every step has a contract over the plain text of the entries.

pub mod context;
pub mod entry;
pub mod freshness;
pub mod order;
pub mod path;
pub mod rearrange;
pub mod render;
pub mod taxonomy;
pub mod text;

pub use crate::context::FeedContext;
pub use crate::entry::ContentEntry;
pub use crate::render::{render_feed, FeedConfig, Site};
pub use crate::taxonomy::{SerializedFeedTaxonomyItem, TaxonomyTerm};
