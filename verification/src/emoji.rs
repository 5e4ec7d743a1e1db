//! The emoji picker: which emoji a category and a query show, and the
//! confirmation after one is copied.
use vstd::prelude::*;

use crate::text::{chars_of, contains_str, extend_all, find, lowercase, seq_eq, string_of, to_lowercase};

verus! {

/// Whether the emoji `emoji`, named `name`, of category `cat`, is shown for
/// the chosen `category` (`all` for every one) and the `query`: the lower-case
/// query must occur in the emoji, its name or its category.
pub open spec fn emoji_shown(
    emoji: Seq<char>,
    name: Seq<char>,
    cat: Seq<char>,
    category: Seq<char>,
    query: Seq<char>,
) -> bool {
    let q = lowercase(query);
    &&& (category == "all"@ || cat == category)
    &&& (q.len() == 0 || find(emoji, q) is Some || find(name, q) is Some || find(cat, q) is Some)
}

/// Whether the emoji is shown for the chosen category and query.
pub fn emoji_matches(emoji: &str, name: &str, cat: &str, category: &str, query: &str) -> (r: bool)
    ensures
        r == emoji_shown(emoji@, name@, cat@, category@, query@),
{
    let category_chars = chars_of(category);
    let in_category = seq_eq(&category_chars, &chars_of("all")) || seq_eq(
        &chars_of(cat),
        &category_chars,
    );
    if !in_category {
        return false;
    }
    let q = to_lowercase(query);
    if q.unicode_len() == 0 {
        return true;
    }
    contains_str(&chars_of(emoji), q.as_str()) || contains_str(&chars_of(name), q.as_str())
        || contains_str(&chars_of(cat), q.as_str())
}

/// The confirmation shown after an emoji is copied.
pub fn copied_emoji_text(emoji: &str, name: &str) -> (r: String)
    ensures
        r@ == "Copied  "@ + emoji@ + "  "@ + name@,
{
    let mut out = chars_of("Copied  ");
    extend_all(&mut out, &chars_of(emoji));
    extend_all(&mut out, &chars_of("  "));
    extend_all(&mut out, &chars_of(name));
    string_of(&out)
}

} // verus!
