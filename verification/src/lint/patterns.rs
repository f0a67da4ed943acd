//! The patterns that the checks look for.

use vstd::prelude::*;
use crate::text::opt_text;

verus! {

/// Matches a `TODO`/`FIXME`/`XXX`/`HACK` marker anywhere in a comment.
pub const TODO_MARKER_RE: &'static str = r"(?i)//.*\b(TODO|FIXME|XXX|HACK)\b";

/// Matches comment lines that look like commented-out Rust statements
/// rather than prose (doc comments are excluded by the caller).
pub const COMMENTED_CODE_RE: &'static str =
    r"^//+\s*(let\s+\w|fn\s+\w|if\s*\(|for\s*\(|match\s+\w|return\b|\w+\s*\([^)]*\)\s*;?\s*$|\w+\.\w+\(.*\)\s*;?\s*$|[\w:<>]+\s*=\s*.+;\s*$)";

/// Matches a new `let`/`fn` binding introducing a weak, generic identifier
/// name (e.g. `temp`, `foo`, `stuff`).
pub const WEAK_NAME_RE: &'static str =
    r"^(let(?:\s+mut)?|fn)\s+(temp|tmp|foo|bar|thing|val|obj|stuff)\b";

/// Matches a bare numeric or string literal candidate for the
/// repeated-literal check. A match ends with the literal, so that what stands
/// behind it can stand before the next one.
pub const LIT_RE: &'static str = r#"(?:^|[^\w.])(\d{2,}\b|"[^"]{4,}"\B)"#;

/// Matches a `const`/`static` declaration line, used to exempt literals
/// that are already hoisted into a named constant.
pub const CONST_LINE_RE: &'static str = r"\b(const|static)\s+\w+";

/// Matches a new `#[allow(clippy::...)]`/`#[expect(clippy::...)]`
/// suppression attribute.
pub const SUPPRESSION_RE: &'static str = r"#\[(allow|expect)\(clippy::";

/// Matches the start of a `#[cfg(test)]` module, used to exclude test code
/// from the repeated-literal check.
pub const TEST_MODULE_RE: &'static str = r"^(#\[cfg\(test\)\]|mod tests\b)";

/// Matches the start of a hunk header in unified diff output, capturing the
/// starting line number of the new file's hunk.
pub const HUNK_HEADER_RE: &'static str = r"^@@ -\d+(?:,\d+)? \+(\d+)";

/// The patterns of this module, all of which are valid.
pub open spec fn known_pattern(pattern: Seq<char>) -> bool {
    ||| pattern == TODO_MARKER_RE@
    ||| pattern == COMMENTED_CODE_RE@
    ||| pattern == WEAK_NAME_RE@
    ||| pattern == LIT_RE@
    ||| pattern == CONST_LINE_RE@
    ||| pattern == SUPPRESSION_RE@
    ||| pattern == TEST_MODULE_RE@
    ||| pattern == HUNK_HEADER_RE@
}

/// Whether a pattern matches somewhere in a text.
pub uninterp spec fn matches_in(pattern: Seq<char>, text: Seq<char>) -> bool;

/// What a group of a pattern captures in the first match in a text.
pub uninterp spec fn captured(pattern: Seq<char>, text: Seq<char>, group: nat) -> Option<Seq<char>>;

/// What a group of a pattern captures in each successive match in a text.
pub uninterp spec fn captured_all(
    pattern: Seq<char>,
    text: Seq<char>,
    group: nat,
) -> Seq<Option<Seq<char>>>;

/// Searches `text` with `regex::Regex::is_match`.
///
/// Trusted: whether one of the patterns here matches depends on the pattern
/// and the text alone. Which texts a pattern matches is left unsaid.
#[verifier::external_body]
fn is_match(pattern: &str, text: &str) -> (r: bool)
    requires
        known_pattern(pattern@),
    ensures
        r == matches_in(pattern@, text@),
{
    regex::Regex::new(pattern).unwrap().is_match(text)
}

/// Searches `text` with `regex::Regex::captures` and takes one group.
///
/// Trusted: what a group of one of the patterns here captures depends on the
/// pattern, the text and the group alone. What that is is left unsaid.
#[verifier::external_body]
fn capture(pattern: &str, text: &str, group: usize) -> (r: Option<String>)
    requires
        known_pattern(pattern@),
    ensures
        opt_text(r) == captured(pattern@, text@, group as nat),
{
    let re = regex::Regex::new(pattern).unwrap();
    re.captures(text).and_then(|caps| caps.get(group)).map(|m| m.as_str().to_owned())
}

/// The characters of each text of a list of optional texts.
pub open spec fn opt_texts(v: Seq<Option<String>>) -> Seq<Option<Seq<char>>> {
    Seq::new(v.len(), |i: int| opt_text(v[i]))
}

/// Searches `text` with `regex::Regex::captures_iter` and takes one group of
/// each match.
///
/// Trusted: what a group of one of the patterns here captures in the
/// successive matches depends on the pattern, the text and the group alone.
/// What that is is left unsaid.
#[verifier::external_body]
fn capture_all(pattern: &str, text: &str, group: usize) -> (r: Vec<Option<String>>)
    requires
        known_pattern(pattern@),
    ensures
        opt_texts(r@) == captured_all(pattern@, text@, group as nat),
{
    let re = regex::Regex::new(pattern).unwrap();
    re.captures_iter(text).map(|caps| caps.get(group).map(|m| m.as_str().to_owned())).collect()
}

/// Decides whether a comment holds a leftover marker.
pub fn has_todo_marker(comment: &str) -> (r: bool)
    ensures
        r == matches_in(TODO_MARKER_RE@, comment@),
{
    is_match(TODO_MARKER_RE, comment)
}

/// Decides whether a comment looks like commented-out code.
pub fn looks_like_code(comment: &str) -> (r: bool)
    ensures
        r == matches_in(COMMENTED_CODE_RE@, comment@),
{
    is_match(COMMENTED_CODE_RE, comment)
}

/// The weak identifier name that a line introduces, if any.
pub fn weak_name(stripped: &str) -> (r: Option<String>)
    ensures
        opt_text(r) == captured(WEAK_NAME_RE@, stripped@, 2),
{
    capture(WEAK_NAME_RE, stripped, 2)
}

/// Decides whether a line suppresses a clippy lint.
pub fn is_suppression(stripped: &str) -> (r: bool)
    ensures
        r == matches_in(SUPPRESSION_RE@, stripped@),
{
    is_match(SUPPRESSION_RE, stripped)
}

/// Decides whether a line declares a constant.
pub fn is_const_line(stripped: &str) -> (r: bool)
    ensures
        r == matches_in(CONST_LINE_RE@, stripped@),
{
    is_match(CONST_LINE_RE, stripped)
}

/// Decides whether a line opens a test module.
pub fn opens_test_module(line: &str) -> (r: bool)
    ensures
        r == matches_in(TEST_MODULE_RE@, line@),
{
    is_match(TEST_MODULE_RE, line)
}

/// The line number in a hunk header, if the line is one.
pub fn hunk_start(line: &str) -> (r: Option<String>)
    ensures
        opt_text(r) == captured(HUNK_HEADER_RE@, line@, 1),
{
    capture(HUNK_HEADER_RE, line, 1)
}

/// The literals of a line, match by match.
pub fn literals_of(stripped: &str) -> (r: Vec<Option<String>>)
    ensures
        opt_texts(r@) == captured_all(LIT_RE@, stripped@, 1),
{
    capture_all(LIT_RE, stripped, 1)
}

} // verus!
