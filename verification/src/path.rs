//! The path of a feed below the site.
//!
//! A feed may live in a sub-directory. Its path is the directory joined with
//! the feed's file name, written with forward slashes whatever separator the
//! directory was given with, so that the address of a feed is the same on
//! every host.

use vstd::prelude::*;
use vstd::string::{StrSliceExecFns, StringExecFns};

verus! {

/// Both slashes separate the parts of a path.
pub open spec fn is_separator(c: char) -> bool {
    c == '/' || c == '\\'
}

/// The character with a backslash turned into a forward slash.
pub open spec fn forward(c: char) -> char {
    if c == '\\' {
        '/'
    } else {
        c
    }
}

/// The path with every backslash turned into a forward slash.
pub open spec fn normalize_separators(path: Seq<char>) -> Seq<char> {
    path.map_values(|c: char| forward(c))
}

/// The text with each occurrence of `from` replaced by `to`.
pub open spec fn replace_each(text: Seq<char>, from: char, to: Seq<char>) -> Seq<char>
    decreases text.len(),
{
    if text.len() == 0 {
        text
    } else {
        replace_each(text.drop_last(), from, to) + if text.last() == from {
            to
        } else {
            seq![text.last()]
        }
    }
}

/// `name` joined to the directory `base`, separators as given. A name that
/// starts at the root stands alone; otherwise a slash is put between the two
/// unless the directory is empty or ends in a separator already.
pub open spec fn joined_path(base: Seq<char>, name: Seq<char>) -> Seq<char> {
    if name.len() > 0 && is_separator(name[0]) {
        name
    } else if base.len() == 0 || is_separator(base.last()) {
        base + name
    } else {
        base + seq!['/'] + name
    }
}

/// The path of the feed `name` in the directory `base`, with forward slashes.
pub open spec fn feed_path(base: Seq<char>, name: Seq<char>) -> Seq<char> {
    normalize_separators(joined_path(base, name))
}

/// What is resolved to the address of the feed: its path in the directory
/// where one is given, the bare file name where none is.
pub open spec fn feed_location(base_path: Option<Seq<char>>, feed_filename: Seq<char>) -> Seq<
    char,
> {
    match base_path {
        Some(base) => feed_path(base, feed_filename),
        None => feed_filename,
    }
}

/// Replacing each backslash by a slash is normalizing the separators.
pub proof fn lemma_replace_backslashes(path: Seq<char>)
    ensures
        replace_each(path, '\\', seq!['/']) == normalize_separators(path),
    decreases path.len(),
{
    if path.len() == 0 {
        assert(normalize_separators(path) =~= path);
    } else {
        lemma_replace_backslashes(path.drop_last());
        assert(normalize_separators(path) =~= normalize_separators(path.drop_last()) + seq![
            forward(path.last()),
        ]);
    }
}

/// A normalized path holds no backslash, and normalizing it again changes
/// nothing.
pub proof fn lemma_normalize_idempotent(path: Seq<char>)
    ensures
        forall|i: int|
            0 <= i < path.len() ==> (#[trigger] normalize_separators(path)[i]) != '\\',
        normalize_separators(normalize_separators(path)) == normalize_separators(path),
        normalize_separators(path).len() == path.len(),
{
    assert(normalize_separators(normalize_separators(path)) =~= normalize_separators(path));
}

/// The path of a feed does not depend on the separators with which the
/// directory and the file name are written.
pub proof fn lemma_feed_path_ignores_separator_style(
    base: Seq<char>,
    other_base: Seq<char>,
    name: Seq<char>,
    other_name: Seq<char>,
)
    requires
        normalize_separators(base) == normalize_separators(other_base),
        normalize_separators(name) == normalize_separators(other_name),
    ensures
        feed_path(base, name) == feed_path(other_base, other_name),
{
    let slash = seq!['/'];
    assert(base.len() == other_base.len()) by {
        lemma_normalize_idempotent(base);
        lemma_normalize_idempotent(other_base);
    }
    assert(name.len() == other_name.len()) by {
        lemma_normalize_idempotent(name);
        lemma_normalize_idempotent(other_name);
    }
    if name.len() > 0 {
        assert(forward(name[0]) == normalize_separators(name)[0]);
        assert(forward(other_name[0]) == normalize_separators(other_name)[0]);
    }
    if base.len() > 0 {
        assert(forward(base.last()) == normalize_separators(base).last());
        assert(forward(other_base.last()) == normalize_separators(other_base).last());
    }
    assert(normalize_separators(base + name) =~= normalize_separators(base)
        + normalize_separators(name));
    assert(normalize_separators(other_base + other_name) =~= normalize_separators(other_base)
        + normalize_separators(other_name));
    assert(normalize_separators(base + slash + name) =~= normalize_separators(base) + slash
        + normalize_separators(name));
    assert(normalize_separators(other_base + slash + other_name) =~= normalize_separators(
        other_base,
    ) + slash + normalize_separators(other_name));
}

/// Replaces each occurrence of a character with `str::replace` of the
/// standard library, which copies the text and puts the replacement in the
/// place of every match of the pattern. For a pattern of one character the
/// matches are its occurrences, which is what the contract says.
#[verifier::external_body]
pub(crate) fn replace_char(text: &str, from: char, to: &str) -> (replaced: String)
    ensures
        replaced@ == replace_each(text@, from, to@),
{
    text.replace(from, to)
}

/// Whether the character is a path separator.
fn separates(c: char) -> (yes: bool)
    ensures
        yes == is_separator(c),
{
    c == '/' || c == '\\'
}

/// The path of the feed `name` in the directory `base`, with forward slashes.
pub fn join_feed_path(base: &str, name: &str) -> (path: String)
    ensures
        path@ == feed_path(base@, name@),
{
    proof {
        reveal_strlit("/");
    }
    let rooted = !name.is_empty() && separates(name.get_char(0));
    let mut joined: String;
    if rooted {
        joined = name.to_owned();
    } else {
        joined = base.to_owned();
        let count = base.unicode_len();
        if count > 0 && !separates(base.get_char(count - 1)) {
            joined.append("/");
        }
        joined.append(name);
    }
    proof {
        assert("/"@ =~= seq!['/']);
        lemma_replace_backslashes(joined@);
    }
    replace_char(joined.as_str(), '\\', "/")
}

/// What is resolved to the address of the feed: its path in the directory
/// where one is given, the bare file name where none is.
pub fn locate_feed(base_path: Option<&str>, feed_filename: &str) -> (location: String)
    ensures
        location@ == feed_location(
            match base_path {
                Some(base) => Some(base@),
                None => None,
            },
            feed_filename@,
        ),
{
    match base_path {
        Some(base) => join_feed_path(base, feed_filename),
        None => feed_filename.to_owned(),
    }
}

} // verus!
