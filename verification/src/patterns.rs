//! The patterns by which the sentences are recognized, and the search for
//! them, which is that of the `regex` crate.
use regex::Regex;
use vstd::prelude::*;

verus! {

/// `<word> is <digit>`: a word of lowercase letters, and one Roman digit.
pub const DEFINE_DIGIT: &'static str = r"([a-z]+)\s+(?i:is)\s+([IVXLCDM])";

/// `<words> <Item> is <number> credits`.
pub const DEFINE_PRICE: &'static str = r"([a-z\s]*)\s+([A-Z].*)\s+(?i:is)\s+([0-9]+)\s+(?i:credits)";

/// `how much is <words>?`.
pub const ASK_VALUE: &'static str = r"(?i:how\s+much\s+is\s+)([a-z\s]*)\?";

/// `how many credits is <words> <Item>?`, with whitespace allowed before the
/// question mark.
pub const ASK_PRICE: &'static str = r"(?i:how\s+many\s+credits\s+is\s+)([a-z\s]*)\s+([A-Z].*)\s*\?";

/// `how many credits is <words> <Item>?`, the item reaching up to the
/// question mark.
pub const ASK_PRICE_STRICT: &'static str = r"(?i:how\s+many\s+credits\s+is\s+)([a-z\s]*)\s+([A-Z].*)\?";

/// What the search for `pattern` in `text` finds: `None` where `Regex::new`
/// refuses the pattern or `Regex::captures` finds no match; else the groups
/// of the leftmost match, the whole match first, each with the text that it
/// matched, or `None` for a group that took no part.
pub uninterp spec fn regex_captures(pattern: Seq<char>, text: Seq<char>) -> Option<
    Seq<Option<Seq<char>>>,
>;

/// The text of a group that may be missing.
pub open spec fn group_text(group: Option<String>) -> Option<Seq<char>> {
    match group {
        Some(part) => Some(part@),
        None => None,
    }
}

/// The texts of the groups of a match.
pub open spec fn groups_text(groups: Seq<Option<String>>) -> Seq<Option<Seq<char>>> {
    groups.map_values(|group: Option<String>| group_text(group))
}

/// The texts of the groups of a match that may be missing.
pub open spec fn found_text(found: Option<Vec<Option<String>>>) -> Option<Seq<Option<Seq<char>>>> {
    match found {
        Some(groups) => Some(groups_text(groups@)),
        None => None,
    }
}

/// `Regex::new` and `Regex::captures`: compiles `pattern` and searches `text`
/// for it. The result is a function of the two strings alone.
#[verifier::external_body]
pub(crate) fn captures(pattern: &str, text: &str) -> (found: Option<Vec<Option<String>>>)
    ensures
        found_text(found) == regex_captures(pattern@, text@),
{
    let regex = Regex::new(pattern).ok()?;
    let matched = regex.captures(text)?;
    let mut groups = Vec::new();
    for group in matched.iter() {
        groups.push(group.map(|part| part.as_str().to_string()));
    }
    Some(groups)
}

} // verus!
