//! What the checks find in the added lines of a diff, and what they report.

use vstd::prelude::*;
use crate::lint::checks::{
    block_closes, comment_at, comment_of, comment_start, narrates, opens_raw, pair_at,
    quote_literal, raw_closes, raw_ends_at, slashes_from, text_closes, without_slashes,
    FindingsView, Reading,
};
use crate::lint::diff::{
    added_by, diff_after, diff_base_of, diff_read, headers_of, numbers_fit, AddedView, DiffPoint,
};
use crate::lint::literals::{
    law_recording_a_line, law_recording_an_occurrence, noted, repeated_warnings, sites_distinct,
    sites_of_literal, with_sites, SitesView,
};
use crate::lint::patterns::{captured, captured_all, matches_in};
use crate::lint::{
    all_findings, findings_after, law_literals_are_kept_together, listed, matches_of,
    matches_of_all, module_marks, report_lines, reports_on, scan_of, start_of, first_mark, Report,
};
use crate::numeral::{decimal, unsigned_value};
use crate::text::{
    begins_with, debug_form, is_white_space, lemma_blank_is_trimmed_empty, lines_of, lowercase_form,
    texts, trim,
};

verus! {

// ---------------------------------------------------------------
// Patterns
// ---------------------------------------------------------------

/// Matches a marker of unfinished work behind two slashes.
pub open spec fn marker_pattern() -> Seq<char> {
    r"(?i)//.*\b(TODO|FIXME|XXX|HACK)\b"@
}

/// Matches a comment that looks like a statement.
pub open spec fn code_pattern() -> Seq<char> {
    r"^//+\s*(let\s+\w|fn\s+\w|if\s*\(|for\s*\(|match\s+\w|return\b|\w+\s*\([^)]*\)\s*;?\s*$|\w+\.\w+\(.*\)\s*;?\s*$|[\w:<>]+\s*=\s*.+;\s*$)"@
}

/// Matches a binding with a name that says nothing; the second group is the name.
pub open spec fn weak_name_pattern() -> Seq<char> {
    r"^(let(?:\s+mut)?|fn)\s+(temp|tmp|foo|bar|thing|val|obj|stuff)\b"@
}

/// Matches a number of two digits or more, or a string of four characters or more; the
/// first group is the literal.
pub open spec fn literal_pattern() -> Seq<char> {
    r#"(?:^|[^\w.])(\d{2,}\b|"[^"]{4,}"\B)"#@
}

/// Matches the declaration of a constant.
pub open spec fn constant_pattern() -> Seq<char> {
    r"\b(const|static)\s+\w+"@
}

/// Matches the suppression of a clippy lint.
pub open spec fn suppression_pattern() -> Seq<char> {
    r"#\[(allow|expect)\(clippy::"@
}

/// Matches the beginning of a test module.
pub open spec fn test_module_pattern() -> Seq<char> {
    r"^(#\[cfg\(test\)\]|mod tests\b)"@
}

/// Matches a hunk header; the first group is the number of its first new line.
pub open spec fn hunk_pattern() -> Seq<char> {
    r"^@@ -\d+(?:,\d+)? \+(\d+)"@
}


// ---------------------------------------------------------------
// Comments
// ---------------------------------------------------------------

/// True when a comment could start at position `i`: two slashes stand there.
pub open spec fn slashes_at(content: Seq<char>, i: int) -> bool {
    0 <= i && i + 1 < content.len() && content[i] == '/' && content[i + 1] == '/'
}

/// The position is that of the first two slashes, if there are any.
pub open spec fn is_first_slashes(content: Seq<char>, found: Option<int>) -> bool {
    match found {
        Some(at) => slashes_at(content, at) && forall|j: int|
            0 <= j < at ==> !#[trigger] slashes_at(content, j),
        None => forall|j: int| !#[trigger] slashes_at(content, j),
    }
}

proof fn lemma_slashes_from(content: Seq<char>, i: int)
    requires
        0 <= i,
    ensures
        match slashes_from(content, i) {
            Some(at) => i <= at && slashes_at(content, at) && forall|j: int|
                i <= j < at ==> !#[trigger] slashes_at(content, j),
            None => forall|j: int| i <= j ==> !#[trigger] slashes_at(content, j),
        },
    decreases content.len() - i,
{
    if i < content.len() {
        lemma_slashes_from(content, i + 1);
        assert(slashes_at(content, i) == pair_at(content, i, '/', '/'));
    }
}

proof fn lemma_comment_is_at_slashes(content: Seq<char>, i: int, reading: Reading, open: bool)
    ensures
        comment_start(content, i, reading, open) matches Some(at) ==> slashes_at(content, at),
    decreases content.len() - i,
{
    if 0 <= i < content.len() {
        match reading {
            Reading::Text => {
                if content[i] == '\\' && i + 1 < content.len() {
                    lemma_comment_is_at_slashes(content, i + 2, reading, open);
                } else {
                    lemma_comment_is_at_slashes(content, i + 1, reading, open);
                    lemma_comment_is_at_slashes(content, i + 1, Reading::Code, open);
                }
            },
            Reading::Raw(_) => {
                lemma_comment_is_at_slashes(content, i + 1, reading, open);
                lemma_comment_is_at_slashes(content, i + 1, Reading::Code, open);
            },
            Reading::Block => {
                lemma_comment_is_at_slashes(content, i + 1, reading, open);
                lemma_comment_is_at_slashes(content, i + 1, Reading::Code, open);
            },
            Reading::Code => {
                let q = quote_literal(content, i);
                if pair_at(content, i, '/', '*') {
                    lemma_comment_is_at_slashes(content, i + 2, Reading::Block, open);
                }
                if q > 0 {
                    lemma_comment_is_at_slashes(content, i + q, reading, open);
                }
                lemma_comment_is_at_slashes(content, i + 1, reading, open);
                lemma_comment_is_at_slashes(content, i + 1, reading, true);
                lemma_comment_is_at_slashes(content, i + 1, Reading::Text, open);
                lemma_comment_is_at_slashes(
                    content,
                    i + 1,
                    Reading::Raw(crate::lint::checks::hashes_before(content, i)),
                    open,
                );
            },
        }
    } else {
        lemma_slashes_from(content, 0);
    }
}

/// A comment starts with two slashes.
pub proof fn law_comments_start_with_slashes(content: Seq<char>)
    ensures
        comment_at(content) matches Some(at) ==> slashes_at(content, at),
{
    lemma_comment_is_at_slashes(content, 0, Reading::Code, false);
}

/// True when a line holds no two double quotes.
pub open spec fn one_quote_at_most(content: Seq<char>) -> bool {
    forall|i: int, j: int|
        0 <= i < content.len() && 0 <= j < content.len() && #[trigger] content[i] == '"'
            && #[trigger] content[j] == '"' ==> i == j
}

proof fn lemma_nothing_closes(content: Seq<char>, i: int, k: int)
    requires
        one_quote_at_most(content),
        0 <= i < k,
        i < content.len(),
        content[i] == '"',
    ensures
        !text_closes(content, k),
    decreases content.len() - k,
{
    if k < content.len() {
        assert(content[k] != '"');
        if content[k] == '\\' {
            if k + 1 < content.len() {
                lemma_nothing_closes(content, i, k + 2);
            }
        } else {
            lemma_nothing_closes(content, i, k + 1);
        }
    }
}

proof fn lemma_hashes(content: Seq<char>, i: int)
    ensures
        crate::lint::checks::hashes_before(content, i) >= 0,
    decreases i,
{
    if 0 < i <= content.len() {
        lemma_hashes(content, i - 1);
    }
}

proof fn lemma_comment_of_simple_line(content: Seq<char>, i: int, open: bool)
    requires
        0 <= i,
        one_quote_at_most(content),
        slashes_from(content, 0) == slashes_from(content, i),
    ensures
        comment_start(content, i, Reading::Code, open) == slashes_from(content, i),
        comment_start(content, i, Reading::Block, open) == slashes_from(content, i),
    decreases content.len() - i,
{
    if i < content.len() && !pair_at(content, i, '/', '/') {
        lemma_comment_of_simple_line(content, i + 1, open);
        lemma_comment_of_simple_line(content, i + 1, true);
        let q = quote_literal(content, i);
        if pair_at(content, i, '/', '*') {
            assert(slashes_from(content, i + 1) == slashes_from(content, i + 2));
            lemma_comment_of_simple_line(content, i + 2, open);
        }
        if q > 0 {
            assert(slashes_from(content, i + 1) == slashes_from(content, i + 2));
            assert(slashes_from(content, i + 2) == slashes_from(content, i + 3));
            if q == 4 {
                assert(slashes_from(content, i + 3) == slashes_from(content, i + 4));
            }
            lemma_comment_of_simple_line(content, i + q, open);
        }
        if content[i] == '"' {
            lemma_nothing_closes(content, i, i + 1);
            let h = crate::lint::checks::hashes_before(content, i);
            lemma_hashes(content, i);
            if raw_closes(content, i + 1, h) {
                let j = choose|j: int| i + 1 <= j && #[trigger] raw_ends_at(content, j, h);
                assert(content[j] == '"');
            }
            assert(!raw_closes(content, i + 1, h));
            assert(comment_start(content, i, Reading::Code, open) == comment_start(
                content,
                i + 1,
                Reading::Code,
                true,
            ));
        } else if q > 0 {
            assert(comment_start(content, i, Reading::Code, open) == comment_start(
                content,
                i + q,
                Reading::Code,
                open,
            ));
        } else if pair_at(content, i, '/', '*') && block_closes(content, i + 2) {
            assert(comment_start(content, i, Reading::Code, open) == comment_start(
                content,
                i + 2,
                Reading::Block,
                open,
            ));
        } else {
            assert(comment_start(content, i, Reading::Code, open) == comment_start(
                content,
                i + 1,
                Reading::Code,
                open,
            ));
        }
    } else if i >= content.len() {
        lemma_slashes_from(content, i);
        lemma_slashes_from(content, 0);
    }
}

/// On a line with at most one double quote, so that no string literal both begins
/// and ends on it, the comment starts at the first two slashes, wherever on the
/// line they stand.
pub proof fn law_comments_start_anywhere(content: Seq<char>)
    requires
        one_quote_at_most(content),
    ensures
        is_first_slashes(content, comment_at(content)),
{
    lemma_comment_of_simple_line(content, 0, false);
    lemma_slashes_from(content, 0);
}

/// True when a text holds nothing that begins or ends a literal or a comment.
pub open spec fn is_calm(s: Seq<char>) -> bool {
    forall|i: int|
        0 <= i < s.len() ==> #[trigger] s[i] != '"' && s[i] != '/' && s[i] != '\'' && s[i] != '\\'
}

/// True when a text from position `i` on can stand inside a string literal: every
/// double quote in it is escaped by a backslash, and so is every backslash.
pub open spec fn is_literal_body(body: Seq<char>, i: int) -> bool
    decreases body.len() - i,
{
    if i < 0 || i >= body.len() {
        i == body.len()
    } else if body[i] == '\\' {
        i + 1 < body.len() && is_literal_body(body, i + 2)
    } else {
        body[i] != '"' && is_literal_body(body, i + 1)
    }
}

proof fn lemma_text_goes_on(content: Seq<char>, body: Seq<char>, from: int, i: int)
    requires
        0 <= from <= i,
        is_literal_body(body, i - from),
        from + body.len() < content.len(),
        content[from + body.len()] == '"',
        forall|j: int| 0 <= j < body.len() ==> #[trigger] body[j] == content[from + j],
    ensures
        text_closes(content, i),
        comment_start(content, i, Reading::Text, false) == comment_start(
            content,
            from + body.len() + 1,
            Reading::Code,
            false,
        ),
    decreases body.len() - (i - from),
{
    if i - from < body.len() {
        assert(body[i - from] == content[i]);
        if body[i - from] == '\\' {
            lemma_text_goes_on(content, body, from, i + 2);
        } else {
            lemma_text_goes_on(content, body, from, i + 1);
        }
    }
}

proof fn lemma_code_goes_on(content: Seq<char>, i: int, end: int)
    requires
        0 <= i <= end <= content.len(),
        forall|j: int|
            i <= j < end ==> #[trigger] content[j] != '"' && content[j] != '/' && content[j]
                != '\'',
    ensures
        comment_start(content, i, Reading::Code, false) == comment_start(
            content,
            end,
            Reading::Code,
            false,
        ),
    decreases end - i,
{
    if i < end {
        lemma_code_goes_on(content, i + 1, end);
    }
}

proof fn lemma_tail_comment(content: Seq<char>, i: int)
    requires
        0 <= i,
        forall|j: int| i <= j < content.len() ==> #[trigger] content[j] != '"',
    ensures
        comment_start(content, i, Reading::Code, false) == slashes_from(content, i),
        comment_start(content, i, Reading::Block, false) == slashes_from(content, i),
    decreases content.len() - i,
{
    if i < content.len() {
        lemma_tail_comment(content, i + 1);
        assert(content[i] != '"');
        assert(quote_literal(content, i) == 0) by {
            if i + 1 < content.len() {
                assert(content[i + 1] != '"');
            }
            if i + 2 < content.len() {
                assert(content[i + 2] != '"');
            }
        }
        if pair_at(content, i, '/', '*') {
            lemma_tail_comment(content, i + 2);
            assert(slashes_from(content, i + 1) == slashes_from(content, i + 2));
        }
    }
}

/// Slashes inside a string literal start no comment, and those behind it do: on a
/// line with one literal, the comment starts at the first two slashes behind the
/// literal. A double quote that a backslash escapes does not end the literal.
pub proof fn law_slashes_in_a_literal_do_not_count(
    before: Seq<char>,
    body: Seq<char>,
    behind: Seq<char>,
)
    requires
        is_calm(before),
        before.len() > 0 ==> before.last() != 'r' && before.last() != '#',
        is_literal_body(body, 0),
        !behind.contains('"'),
    ensures
        ({
            let content = before + seq!['"'] + body + seq!['"'] + behind;
            let start = before.len() + body.len() + 2;
            match comment_at(content) {
                Some(at) => start <= at && slashes_at(content, at) && forall|j: int|
                    start <= j < at ==> !#[trigger] slashes_at(content, j),
                None => forall|j: int| start <= j ==> !#[trigger] slashes_at(content, j),
            }
        }),
{
    let content = before + seq!['"'] + body + seq!['"'] + behind;
    let n = before.len() as int;
    let end = n + 1 + body.len();
    assert(content[n] == '"');
    assert(content[end] == '"');
    assert forall|j: int| 0 <= j < n implies #[trigger] content[j] != '"' && content[j] != '/'
        && content[j] != '\'' by {
        assert(content[j] == before[j]);
    }
    lemma_code_goes_on(content, 0, n);
    assert forall|j: int| 0 <= j < body.len() implies #[trigger] body[j] == content[n + 1 + j] by {}
    if n > 0 {
        assert(content[n - 1] == before.last());
    }
    assert(!opens_raw(content, n));
    assert(!pair_at(content, n, '/', '/'));
    lemma_text_goes_on(content, body, n + 1, n + 1);
    assert forall|j: int| end + 1 <= j < content.len() implies #[trigger] content[j] != '"' by {
        assert(content[j] == behind[j - end - 1]);
    }
    lemma_tail_comment(content, end + 1);
    lemma_slashes_from(content, end + 1);
}

/// Code and literals in turn: each piece of code is followed by a string literal.
pub open spec fn with_literals(parts: Seq<(Seq<char>, Seq<char>)>) -> Seq<char>
    decreases parts.len(),
{
    if parts.len() == 0 {
        Seq::empty()
    } else {
        with_literals(parts.drop_last()) + parts.last().0 + seq!['"'] + parts.last().1 + seq!['"']
    }
}

/// True when the code holds nothing that begins or ends a literal or a comment, and
/// the literals are complete.
pub open spec fn are_code_and_literals(parts: Seq<(Seq<char>, Seq<char>)>) -> bool {
    forall|i: int|
        0 <= i < parts.len() ==> {
            let (code, body) = #[trigger] parts[i];
            &&& is_calm(code)
            &&& code.len() > 0 ==> code.last() != 'r' && code.last() != '#'
            &&& is_literal_body(body, 0)
        }
}

proof fn lemma_literals_are_passed(
    content: Seq<char>,
    parts: Seq<(Seq<char>, Seq<char>)>,
    behind: Seq<char>,
)
    requires
        are_code_and_literals(parts),
        content == with_literals(parts) + behind,
    ensures
        comment_start(content, 0, Reading::Code, false) == comment_start(
            content,
            with_literals(parts).len() as int,
            Reading::Code,
            false,
        ),
        parts.len() > 0 ==> with_literals(parts).len() > 0 && with_literals(parts).last() == '"',
    decreases parts.len(),
{
    if parts.len() > 0 {
        let rest = parts.drop_last();
        let (code, body) = parts.last();
        assert(parts[parts.len() - 1] == parts.last());
        assert forall|i: int| 0 <= i < rest.len() implies {
            let (code, body) = #[trigger] rest[i];
            &&& is_calm(code)
            &&& code.len() > 0 ==> code.last() != 'r' && code.last() != '#'
            &&& is_literal_body(body, 0)
        } by {
            assert(rest[i] == parts[i]);
        }
        let tail = code + seq!['"'] + body + seq!['"'] + behind;
        assert(content =~= with_literals(rest) + tail);
        lemma_literals_are_passed(content, rest, tail);
        let from = with_literals(rest).len() as int;
        let n = from + code.len();
        assert forall|j: int| from <= j < n implies #[trigger] content[j] != '"' && content[j] != '/'
            && content[j] != '\'' by {
            assert(content[j] == code[j - from]);
        }
        lemma_code_goes_on(content, from, n);
        assert(content[n] == '"');
        assert forall|j: int| 0 <= j < body.len() implies #[trigger] body[j] == content[n + 1 + j] by {}
        assert(content[n + 1 + body.len()] == '"');
        if n > 0 {
            if code.len() > 0 {
                assert(content[n - 1] == code.last());
            } else {
                assert(rest.len() > 0);
                assert(content[n - 1] == with_literals(rest).last());
            }
        }
        assert(!opens_raw(content, n));
        assert(!pair_at(content, n, '/', '/'));
        lemma_text_goes_on(content, body, n + 1, n + 1);
    } else {
        assert(with_literals(parts).len() == 0);
    }
}

/// However many literals stand on a line, the slashes inside them start no comment:
/// it starts at the first two slashes behind the last literal.
pub proof fn law_every_literal_is_passed(
    parts: Seq<(Seq<char>, Seq<char>)>,
    behind: Seq<char>,
)
    requires
        are_code_and_literals(parts),
        !behind.contains('"'),
    ensures
        ({
            let content = with_literals(parts) + behind;
            let start = with_literals(parts).len();
            match comment_at(content) {
                Some(at) => start <= at && slashes_at(content, at) && forall|j: int|
                    start <= j < at ==> !#[trigger] slashes_at(content, j),
                None => forall|j: int| start <= j ==> !#[trigger] slashes_at(content, j),
            }
        }),
{
    let content = with_literals(parts) + behind;
    let start = with_literals(parts).len() as int;
    lemma_literals_are_passed(content, parts, behind);
    assert forall|j: int| start <= j < content.len() implies #[trigger] content[j] != '"' by {
        assert(content[j] == behind[j - start]);
    }
    lemma_tail_comment(content, start);
    lemma_slashes_from(content, start);
}

/// A number of hash signs.
pub open spec fn hashes(k: nat) -> Seq<char> {
    Seq::new(k, |i: int| '#')
}

proof fn lemma_hashes_before(content: Seq<char>, i: int, k: int)
    requires
        0 <= k < i <= content.len(),
        forall|j: int| i - k <= j < i ==> #[trigger] content[j] == '#',
        content[i - k - 1] != '#',
    ensures
        crate::lint::checks::hashes_before(content, i) == k,
    decreases k,
{
    if k > 0 {
        assert(content[i - 1] == '#');
        lemma_hashes_before(content, i - 1, k - 1);
    } else {
        assert(content[i - 1] != '#');
    }
}

proof fn lemma_raw_goes_on(content: Seq<char>, i: int, end: int, k: int)
    requires
        0 <= i <= end,
        0 <= k,
        raw_ends_at(content, end, k),
        forall|j: int| i <= j < end ==> #[trigger] content[j] != '"',
    ensures
        comment_start(content, i, Reading::Raw(k), false) == comment_start(
            content,
            end + 1,
            Reading::Code,
            false,
        ),
    decreases end - i,
{
    if i < end {
        assert(content[i] != '"');
        lemma_raw_goes_on(content, i + 1, end, k);
    }
}

/// In a raw string literal nothing is escaped: it ends at the first double quote
/// that its hash signs follow. On a line with one raw literal, the comment starts
/// at the first two slashes behind the literal.
pub proof fn law_nothing_is_escaped_in_a_raw_literal(
    before: Seq<char>,
    k: nat,
    body: Seq<char>,
    behind: Seq<char>,
)
    requires
        is_calm(before),
        !body.contains('"'),
        !behind.contains('"'),
    ensures
        ({
            let content = before + seq!['r'] + hashes(k) + seq!['"'] + body + seq!['"'] + hashes(k)
                + behind;
            let start = before.len() + k + body.len() + 3;
            match comment_at(content) {
                Some(at) => start <= at && slashes_at(content, at) && forall|j: int|
                    start <= j < at ==> !#[trigger] slashes_at(content, j),
                None => forall|j: int| start <= j ==> !#[trigger] slashes_at(content, j),
            }
        }),
{
    let content = before + seq!['r'] + hashes(k) + seq!['"'] + body + seq!['"'] + hashes(k) + behind;
    let r = before.len() as int;
    let n = r + 1 + k;
    let end = n + 1 + body.len();
    assert(content[r] == 'r');
    assert(content[n] == '"');
    assert(content[end] == '"');
    assert forall|j: int| 0 <= j < n implies #[trigger] content[j] != '"' && content[j] != '/'
        && content[j] != '\'' by {
        if j < r {
            assert(content[j] == before[j]);
        } else if j > r {
            assert(content[j] == hashes(k)[j - r - 1]);
        }
    }
    lemma_code_goes_on(content, 0, n);
    assert forall|j: int| n - k <= j < n implies #[trigger] content[j] == '#' by {
        assert(content[j] == hashes(k)[j - r - 1]);
    }
    lemma_hashes_before(content, n, k as int);
    assert(opens_raw(content, n));
    assert forall|h: int| end < h <= end + k implies #[trigger] content[h] == '#' by {
        assert(content[h] == hashes(k)[h - end - 1]);
    }
    assert(raw_ends_at(content, end, k as int));
    assert(raw_closes(content, n + 1, k as int));
    assert forall|j: int| n + 1 <= j < end implies #[trigger] content[j] != '"' by {
        assert(content[j] == body[j - n - 1]);
    }
    assert(!pair_at(content, n, '/', '/') && !pair_at(content, n, '/', '*'));
    lemma_raw_goes_on(content, n + 1, end, k as int);
    assert forall|j: int| end + 1 <= j < content.len() implies #[trigger] content[j] != '"' by {
        if j <= end + k {
            assert(content[j] == hashes(k)[j - end - 1]);
        } else {
            assert(content[j] == behind[j - end - k - 1]);
        }
    }
    lemma_tail_comment(content, end + 1);
    lemma_slashes_from(content, end + 1);
}

proof fn lemma_block_goes_on(content: Seq<char>, i: int, end: int)
    requires
        0 <= i <= end,
        pair_at(content, end, '*', '/'),
        forall|j: int| i <= j < end ==> !#[trigger] pair_at(content, j, '*', '/'),
        forall|j: int| i <= j < end ==> !#[trigger] slashes_at(content, j),
    ensures
        comment_start(content, i, Reading::Block, false) == comment_start(
            content,
            end + 1,
            Reading::Code,
            false,
        ),
    decreases end - i,
{
    if i < end {
        assert(!slashes_at(content, i));
        assert(slashes_at(content, i) == pair_at(content, i, '/', '/'));
        lemma_block_goes_on(content, i + 1, end);
    }
}

/// Double quotes inside a block comment open no literal: on a line with one block
/// comment and no literal, the comment starts at the first two slashes behind the
/// block.
pub proof fn law_quotes_in_a_block_do_not_count(
    before: Seq<char>,
    body: Seq<char>,
    behind: Seq<char>,
)
    requires
        is_calm(before),
        forall|i: int| 0 <= i < body.len() ==> #[trigger] body[i] != '/' && body[i] != '*',
        !behind.contains('"'),
    ensures
        ({
            let content = before + seq!['/', '*'] + body + seq!['*', '/'] + behind;
            let start = before.len() + body.len() + 3;
            match comment_at(content) {
                Some(at) => start <= at && slashes_at(content, at) && forall|j: int|
                    start <= j < at ==> !#[trigger] slashes_at(content, j),
                None => forall|j: int| start <= j ==> !#[trigger] slashes_at(content, j),
            }
        }),
{
    let content = before + seq!['/', '*'] + body + seq!['*', '/'] + behind;
    let n = before.len() as int;
    let end = n + 2 + body.len();
    assert(content[n] == '/' && content[n + 1] == '*');
    assert(content[end] == '*' && content[end + 1] == '/');
    assert forall|j: int| 0 <= j < n implies #[trigger] content[j] != '"' && content[j] != '/'
        && content[j] != '\'' by {
        assert(content[j] == before[j]);
    }
    lemma_code_goes_on(content, 0, n);
    assert(pair_at(content, end, '*', '/'));
    assert(block_closes(content, n + 2));
    assert forall|j: int| n + 2 <= j < end implies !#[trigger] pair_at(content, j, '*', '/') by {
        assert(content[j] == body[j - n - 2]);
    }
    assert forall|j: int| n + 2 <= j < end implies !#[trigger] slashes_at(content, j) by {
        assert(content[j] == body[j - n - 2]);
    }
    lemma_block_goes_on(content, n + 2, end);
    assert forall|j: int| end + 1 <= j < content.len() implies #[trigger] content[j] != '"' by {
        if j > end + 1 {
            assert(content[j] == behind[j - end - 2]);
        }
    }
    lemma_tail_comment(content, end + 1);
    lemma_slashes_from(content, end + 1);
}

/// A character literal that holds a double quote opens no string literal: with two
/// of them on a line, and no other quote, the comment still starts at the first
/// two slashes behind them.
pub proof fn law_quote_characters_open_nothing(
    before: Seq<char>,
    between: Seq<char>,
    behind: Seq<char>,
)
    requires
        is_calm(before),
        is_calm(between),
        !behind.contains('"'),
    ensures
        ({
            let quote = seq!['\'', '"', '\''];
            let content = before + quote + between + quote + behind;
            let start = before.len() + between.len() + 6;
            match comment_at(content) {
                Some(at) => start <= at && slashes_at(content, at) && forall|j: int|
                    start <= j < at ==> !#[trigger] slashes_at(content, j),
                None => forall|j: int| start <= j ==> !#[trigger] slashes_at(content, j),
            }
        }),
{
    let quote = seq!['\'', '"', '\''];
    let content = before + quote + between + quote + behind;
    let n = before.len() as int;
    let m = n + 3 + between.len();
    assert(content[n] == '\'' && content[n + 1] == '"' && content[n + 2] == '\'');
    assert(content[m] == '\'' && content[m + 1] == '"' && content[m + 2] == '\'');
    assert forall|j: int| 0 <= j < n implies #[trigger] content[j] != '"' && content[j] != '/'
        && content[j] != '\'' by {
        assert(content[j] == before[j]);
    }
    lemma_code_goes_on(content, 0, n);
    assert(quote_literal(content, n) == 3);
    assert(comment_start(content, n, Reading::Code, false) == comment_start(
        content,
        n + 3,
        Reading::Code,
        false,
    ));
    assert forall|j: int| n + 3 <= j < m implies #[trigger] content[j] != '"' && content[j] != '/'
        && content[j] != '\'' by {
        assert(content[j] == between[j - n - 3]);
    }
    lemma_code_goes_on(content, n + 3, m);
    assert(quote_literal(content, m) == 3);
    assert(comment_start(content, m, Reading::Code, false) == comment_start(
        content,
        m + 3,
        Reading::Code,
        false,
    ));
    assert forall|j: int| m + 3 <= j < content.len() implies #[trigger] content[j] != '"' by {
        assert(content[j] == behind[j - m - 3]);
    }
    lemma_tail_comment(content, m + 3);
    lemma_slashes_from(content, m + 3);
}

proof fn lemma_comment_is_not_blank(content: Seq<char>)
    ensures
        comment_at(content) matches Some(at) ==> comment_of(content) == trim(content.skip(at))
            && comment_of(content).len() > 0,
        comment_at(content) is None ==> comment_of(content).len() == 0,
{
    law_comments_start_with_slashes(content);
    if let Some(at) = comment_at(content) {
        let rest = content.skip(at);
        assert(rest[0] == '/');
        lemma_blank_is_trimmed_empty(rest);
        assert(!is_white_space(rest[0]));
    }
}

// ---------------------------------------------------------------
// Blocking findings
// ---------------------------------------------------------------

/// True when a comment documents an item or a module.
pub open spec fn documents(comment: Seq<char>) -> bool {
    begins_with(comment, "///"@) || begins_with(comment, "//!"@)
}

/// True when a line has a comment, wherever it starts, in which the marker
/// pattern matches.
pub open spec fn holds_marker(line: AddedView) -> bool {
    comment_at(line.content) matches Some(at) && matches_in(
        marker_pattern(),
        trim(line.content.skip(at)),
    )
}

/// True when a line has a comment, wherever it starts, that documents nothing and
/// looks like code.
pub open spec fn holds_code(line: AddedView) -> bool {
    comment_at(line.content) matches Some(at) && !documents(trim(line.content.skip(at)))
        && matches_in(code_pattern(), trim(line.content.skip(at)))
}

/// A finding in a line: the file, the number of the line, what was found, and the
/// line itself.
pub open spec fn located(line: AddedView, what: Seq<char>) -> Seq<char> {
    line.file + ":"@ + decimal(line.lineno) + ": "@ + what + debug_form(trim(line.content))
}

/// The blocking findings of a line.
pub open spec fn blocking_in(line: AddedView) -> Seq<Seq<char>> {
    (if holds_marker(line) {
        seq![located(line, "leftover TODO/FIXME/XXX/HACK marker: "@)]
    } else {
        Seq::empty()
    }) + (if holds_code(line) {
        seq![located(line, "looks like commented-out code: "@)]
    } else {
        Seq::empty()
    })
}

/// The warnings for a line, but for those on repeated literals.
pub open spec fn warnings_in(line: AddedView) -> Seq<Seq<char>> {
    let stripped = trim(line.content);
    (match comment_at(line.content) {
        Some(at) => {
            let comment = trim(line.content.skip(at));
            if !documents(comment) && narrates(
                lowercase_form(trim(without_slashes(comment))),
            ) {
                seq![
                    located(
                        line,
                        "narrating 'what' comment, prefer self-explanatory code or a doc comment on why: "@,
                    ),
                ]
            } else {
                Seq::empty()
            }
        },
        None => Seq::empty(),
    }) + (match captured(weak_name_pattern(), stripped, 2) {
        Some(name) => seq![
            located(line, "weak/generic identifier name "@ + debug_form(name) + ": "@),
        ],
        None => Seq::empty(),
    }) + (if matches_in(suppression_pattern(), stripped) {
        seq![located(line, "new clippy suppression added, double-check the reason: "@)]
    } else {
        Seq::empty()
    })
}

/// The members of the first `n` lists, one after the other.
pub open spec fn joined(lists: Seq<Seq<Seq<char>>>, n: int) -> Seq<Seq<char>>
    decreases n,
{
    if n <= 0 {
        Seq::empty()
    } else {
        joined(lists, n - 1) + lists[n - 1]
    }
}

proof fn lemma_trimmed_begins_with_slashes(content: Seq<char>)
    ensures
        comment_at(content) is Some ==> begins_with(comment_of(content), "//"@),
        comment_at(content) is None ==> !begins_with(comment_of(content), "//"@),
{
    reveal_strlit("//");
    lemma_comment_is_not_blank(content);
    law_comments_start_with_slashes(content);
    if let Some(at) = comment_at(content) {
        let rest = content.skip(at);
        assert(rest[0] == '/' && rest[1] == '/');
        lemma_trim_keeps_front(rest);
        assert(comment_of(content).subrange(0, 2) =~= "//"@);
    }
}

proof fn lemma_trim_end_keeps_front(s: Seq<char>)
    requires
        s.len() >= 2,
        !is_white_space(s[0]),
        !is_white_space(s[1]),
    ensures
        crate::text::trim_end(s).len() >= 2,
        crate::text::trim_end(s)[0] == s[0],
        crate::text::trim_end(s)[1] == s[1],
    decreases s.len(),
{
    if is_white_space(s.last()) {
        lemma_trim_end_keeps_front(s.drop_last());
    }
}

proof fn lemma_trim_keeps_front(s: Seq<char>)
    requires
        s.len() >= 2,
        !is_white_space(s[0]),
        !is_white_space(s[1]),
    ensures
        trim(s).len() >= 2,
        trim(s)[0] == s[0],
        trim(s)[1] == s[1],
{
    lemma_trim_end_keeps_front(s);
}

proof fn lemma_blocking_of_line(f: FindingsView, line: AddedView)
    ensures
        findings_after(f, line, matches_of(line)).blocking == f.blocking + blocking_in(line),
{
    lemma_comment_is_not_blank(line.content);
    let after = findings_after(f, line, matches_of(line)).blocking;
    assert(after =~= f.blocking + blocking_in(line));
}

proof fn lemma_warnings_of_line(f: FindingsView, line: AddedView)
    ensures
        findings_after(f, line, matches_of(line)).warnings == f.warnings + warnings_in(line),
{
    lemma_comment_is_not_blank(line.content);
    lemma_trimmed_begins_with_slashes(line.content);
    let after = findings_after(f, line, matches_of(line)).warnings;
    assert(after =~= f.warnings + warnings_in(line));
}

/// The findings in the added lines are those of each line, line by line: the
/// blocking ones are leftover markers and commented-out code in comments, and
/// nothing else; the warnings are narrating comments, weak names and
/// suppressions.
pub proof fn law_findings_are_those_of_each_line(
    added: Seq<AddedView>,
    starts: Seq<usize>,
    n: int,
)
    requires
        0 <= n <= added.len(),
    ensures
        ({
            let f = scan_of(added, matches_of_all(added), starts, n).findings;
            &&& f.blocking == joined(
                Seq::new(added.len(), |i: int| blocking_in(added[i])),
                n,
            )
            &&& f.warnings == joined(
                Seq::new(added.len(), |i: int| warnings_in(added[i])),
                n,
            )
        }),
    decreases n,
{
    let blocking = Seq::new(added.len(), |i: int| blocking_in(added[i]));
    let warnings = Seq::new(added.len(), |i: int| warnings_in(added[i]));
    let f = scan_of(added, matches_of_all(added), starts, n).findings;
    if n > 0 {
        law_findings_are_those_of_each_line(added, starts, n - 1);
        let before = scan_of(added, matches_of_all(added), starts, n - 1).findings;
        let line = added[n - 1];
        assert(matches_of_all(added)[n - 1] == matches_of(line));
        assert(f == findings_after(before, line, matches_of(line)));
        lemma_blocking_of_line(before, line);
        lemma_warnings_of_line(before, line);
        assert(blocking[n - 1] == blocking_in(line));
        assert(warnings[n - 1] == warnings_in(line));
    } else {
        assert(f.blocking =~= joined(blocking, 0));
        assert(f.warnings =~= joined(warnings, 0));
    }
}

proof fn lemma_joined_empty(lists: Seq<Seq<Seq<char>>>, n: int)
    requires
        0 <= n <= lists.len(),
    ensures
        joined(lists, n).len() == 0 <==> forall|i: int|
            0 <= i < n ==> (#[trigger] lists[i]).len() == 0,
    decreases n,
{
    if n > 0 {
        lemma_joined_empty(lists, n - 1);
    }
}

proof fn lemma_joined_contains(lists: Seq<Seq<Seq<char>>>, n: int, i: int, text: Seq<char>)
    requires
        0 <= i < n <= lists.len(),
        lists[i].contains(text),
    ensures
        joined(lists, n).contains(text),
    decreases n,
{
    let all = joined(lists, n);
    let before = joined(lists, n - 1);
    if i == n - 1 {
        let k = choose|k: int| 0 <= k < lists[i].len() && lists[i][k] == text;
        assert(all[before.len() + k] == text);
    } else {
        lemma_joined_contains(lists, n - 1, i, text);
        let k = choose|k: int| 0 <= k < before.len() && before[k] == text;
        assert(all[k] == text);
    }
}

/// The check passes exactly when no added line has a comment, wherever on the
/// line it starts, that holds a leftover marker, or that looks like code and
/// documents nothing. Warnings never fail it.
pub proof fn law_clean_means_no_marker_and_no_code(
    r: Report,
    diff_base: Seq<char>,
    added: Seq<AddedView>,
    starts: Seq<usize>,
)
    requires
        starts.len() == added.len(),
        reports_on(r, diff_base, added, matches_of_all(added), starts),
    ensures
        r.clean <==> forall|i: int|
            0 <= i < added.len() ==> !holds_marker(#[trigger] added[i]) && !holds_code(added[i]),
{
    let lists = Seq::new(added.len(), |i: int| blocking_in(added[i]));
    if added.len() > 0 {
        law_findings_are_those_of_each_line(added, starts, added.len() as int);
        lemma_joined_empty(lists, added.len() as int);
        if r.clean {
            assert forall|i: int| 0 <= i < added.len() implies !holds_marker(#[trigger] added[i])
                && !holds_code(added[i]) by {
                assert(lists[i].len() == 0);
            }
        } else {
            let i = choose|i: int| 0 <= i < added.len() && (#[trigger] lists[i]).len() != 0;
            assert(holds_marker(added[i]) || holds_code(added[i]));
        }
    }
}

/// A leftover marker in the comment of an added line is reported with the file,
/// the number and the text of the line, and fails the check.
pub proof fn law_markers_are_reported(
    r: Report,
    diff_base: Seq<char>,
    added: Seq<AddedView>,
    starts: Seq<usize>,
    i: int,
)
    requires
        starts.len() == added.len(),
        reports_on(r, diff_base, added, matches_of_all(added), starts),
        0 <= i < added.len(),
    ensures
        holds_marker(added[i]) ==> !r.clean && texts(r.stderr@).contains(
            "  - "@ + located(added[i], "leftover TODO/FIXME/XXX/HACK marker: "@),
        ),
        holds_code(added[i]) ==> !r.clean && texts(r.stderr@).contains(
            "  - "@ + located(added[i], "looks like commented-out code: "@),
        ),
{
    law_clean_means_no_marker_and_no_code(r, diff_base, added, starts);
    law_findings_are_those_of_each_line(added, starts, added.len() as int);
    let lists = Seq::new(added.len(), |i: int| blocking_in(added[i]));
    let f = all_findings(added, matches_of_all(added), starts);
    let marker = located(added[i], "leftover TODO/FIXME/XXX/HACK marker: "@);
    let code = located(added[i], "looks like commented-out code: "@);
    if holds_marker(added[i]) {
        assert(lists[i][0] == marker);
        lemma_joined_contains(lists, added.len() as int, i, marker);
        law_every_finding_is_listed(f, marker);
    }
    if holds_code(added[i]) {
        assert(lists[i][lists[i].len() - 1] == code);
        lemma_joined_contains(lists, added.len() as int, i, code);
        law_every_finding_is_listed(f, code);
    }
}

/// The beginnings of comments that say what the code does.
pub open spec fn narrating_beginnings() -> Seq<Seq<char>> {
    seq![
        "add "@, "adds "@, "append "@, "appends "@, "call "@, "calls "@, "check if"@,
        "checks if"@, "convert "@, "converts "@, "create a"@, "creates a"@, "declare "@,
        "declares "@, "decrement"@, "define "@, "defines "@, "get the"@, "gets the"@, "import "@,
        "imports "@, "increment"@, "initialize"@, "instantiate"@, "iterate over"@,
        "iterate through"@, "loop over"@, "loop through"@, "parse the"@, "parses the"@,
        "remove "@, "removes "@, "return the"@, "returns the"@, "set the"@, "sets the"@,
        "validate that"@, "validates that"@,
    ]
}

/// A comment narrates exactly when it has one of these beginnings.
pub proof fn law_narrating_comments_have_known_beginnings(body: Seq<char>)
    ensures
        narrates(body) <==> exists|i: int|
            0 <= i < narrating_beginnings().len() && begins_with(
                body,
                #[trigger] narrating_beginnings()[i],
            ),
{
    let all = narrating_beginnings();
    assert(all.len() == 38);
    if narrates(body) {
        assert(begins_with(body, all[0]) || !begins_with(body, "add "@));
        assert(begins_with(body, all[1]) || !begins_with(body, "adds "@));
        assert(begins_with(body, all[2]) || !begins_with(body, "append "@));
        assert(begins_with(body, all[3]) || !begins_with(body, "appends "@));
        assert(begins_with(body, all[4]) || !begins_with(body, "call "@));
        assert(begins_with(body, all[5]) || !begins_with(body, "calls "@));
        assert(begins_with(body, all[6]) || !begins_with(body, "check if"@));
        assert(begins_with(body, all[7]) || !begins_with(body, "checks if"@));
        assert(begins_with(body, all[8]) || !begins_with(body, "convert "@));
        assert(begins_with(body, all[9]) || !begins_with(body, "converts "@));
        assert(begins_with(body, all[10]) || !begins_with(body, "create a"@));
        assert(begins_with(body, all[11]) || !begins_with(body, "creates a"@));
        assert(begins_with(body, all[12]) || !begins_with(body, "declare "@));
        assert(begins_with(body, all[13]) || !begins_with(body, "declares "@));
        assert(begins_with(body, all[14]) || !begins_with(body, "decrement"@));
        assert(begins_with(body, all[15]) || !begins_with(body, "define "@));
        assert(begins_with(body, all[16]) || !begins_with(body, "defines "@));
        assert(begins_with(body, all[17]) || !begins_with(body, "get the"@));
        assert(begins_with(body, all[18]) || !begins_with(body, "gets the"@));
        assert(begins_with(body, all[19]) || !begins_with(body, "import "@));
        assert(begins_with(body, all[20]) || !begins_with(body, "imports "@));
        assert(begins_with(body, all[21]) || !begins_with(body, "increment"@));
        assert(begins_with(body, all[22]) || !begins_with(body, "initialize"@));
        assert(begins_with(body, all[23]) || !begins_with(body, "instantiate"@));
        assert(begins_with(body, all[24]) || !begins_with(body, "iterate over"@));
        assert(begins_with(body, all[25]) || !begins_with(body, "iterate through"@));
        assert(begins_with(body, all[26]) || !begins_with(body, "loop over"@));
        assert(begins_with(body, all[27]) || !begins_with(body, "loop through"@));
        assert(begins_with(body, all[28]) || !begins_with(body, "parse the"@));
        assert(begins_with(body, all[29]) || !begins_with(body, "parses the"@));
        assert(begins_with(body, all[30]) || !begins_with(body, "remove "@));
        assert(begins_with(body, all[31]) || !begins_with(body, "removes "@));
        assert(begins_with(body, all[32]) || !begins_with(body, "return the"@));
        assert(begins_with(body, all[33]) || !begins_with(body, "returns the"@));
        assert(begins_with(body, all[34]) || !begins_with(body, "set the"@));
        assert(begins_with(body, all[35]) || !begins_with(body, "sets the"@));
        assert(begins_with(body, all[36]) || !begins_with(body, "validate that"@));
        assert(begins_with(body, all[37]) || !begins_with(body, "validates that"@));
    }
}

/// The body of a comment is what stands behind all of its leading slashes.
pub proof fn law_leading_slashes_are_dropped(comment: Seq<char>) -> (k: int)
    ensures
        0 <= k <= comment.len(),
        without_slashes(comment) == comment.skip(k),
        forall|i: int| 0 <= i < k ==> #[trigger] comment[i] == '/',
        k < comment.len() ==> comment[k] != '/',
    decreases comment.len(),
{
    if comment.len() > 0 && comment[0] == '/' {
        let rest = comment.drop_first();
        let k = law_leading_slashes_are_dropped(rest);
        assert(rest.skip(k) =~= comment.skip(k + 1));
        assert forall|i: int| 0 <= i < k + 1 implies #[trigger] comment[i] == '/' by {
            if i > 0 {
                assert(rest[i - 1] == comment[i]);
            }
        }
        if k < rest.len() {
            assert(rest[k] == comment[k + 1]);
        }
        k + 1
    } else {
        assert(comment.skip(0) =~= comment);
        0
    }
}

// ---------------------------------------------------------------
// Reports
// ---------------------------------------------------------------

/// Without added lines there is nothing to check: the check passes, and says so
/// with what it compared against.
pub proof fn law_nothing_to_check_passes(r: Report, diff_base: Seq<char>)
    requires
        reports_on(r, diff_base, Seq::empty(), matches_of_all(Seq::empty()), Seq::empty()),
    ensures
        r.clean,
        texts(r.stdout@) == seq![
            "[extended-lint] no added Rust lines vs "@ + diff_base + "; nothing to check."@,
        ],
        r.stderr@.len() == 0,
{
}

/// Every finding, blocking or not, stands on a line of its own in the report.
pub proof fn law_every_finding_is_listed(
    f: FindingsView,
    finding: Seq<char>,
)
    ensures
        f.blocking.contains(finding) || f.warnings.contains(finding) ==> report_lines(f).contains(
            "  - "@ + finding,
        ),
{
    let lines = report_lines(f);
    let w = if f.warnings.len() > 0 {
        f.warnings.len() + 2
    } else {
        0
    };
    if f.warnings.contains(finding) {
        let k = choose|k: int| 0 <= k < f.warnings.len() && f.warnings[k] == finding;
        assert(listed(f.warnings)[k] == "  - "@ + finding);
        assert(lines[1 + k] == listed(f.warnings)[k]);
    }
    if f.blocking.contains(finding) {
        let k = choose|k: int| 0 <= k < f.blocking.len() && f.blocking[k] == finding;
        assert(listed(f.blocking)[k] == "  - "@ + finding);
        assert(lines[w + 1 + k] == listed(f.blocking)[k]);
    }
}

/// The warnings come first, under a heading that says that they do not block, and
/// then what blocks, under its own; without blocking findings the report ends by
/// saying so. Nothing else is reported.
pub proof fn law_reports_are_laid_out(f: FindingsView)
    ensures
        ({
            let lines = report_lines(f);
            let w = f.warnings.len();
            let b = f.blocking.len();
            let from = if w > 0 {
                w + 2
            } else {
                0
            };
            &&& w > 0 ==> lines[0] == "[extended-lint] warnings (review, does not block):"@
                && lines[w as int + 1] == ""@
            &&& forall|k: int| #![trigger f.warnings[k]]
                0 <= k < w ==> lines[1 + k] == "  - "@ + f.warnings[k]
            &&& b == 0 ==> lines.len() == from + 1 && lines[from as int]
                == "[extended-lint] no blocking findings."@
            &&& b > 0 ==> lines.len() == from + b + 3 && lines[from as int]
                == "[extended-lint] BLOCKING findings:"@ && lines[from as int + b + 1] == ""@ && lines[from as int + b
                + 2]
                == "[extended-lint] fix the above, or if a match is a false positive, note why in the PR description."@
            &&& forall|k: int| #![trigger f.blocking[k]]
                0 <= k < b ==> lines[from + 1 + k] == "  - "@ + f.blocking[k]
        }),
{
    let lines = report_lines(f);
    let w = f.warnings.len();
    let from = if w > 0 {
        w + 2
    } else {
        0
    };
    assert forall|k: int| #![trigger f.warnings[k]] 0 <= k < w implies lines[1 + k] == "  - "@
        + f.warnings[k] by {
        assert(lines[1 + k] == listed(f.warnings)[k]);
    }
    assert forall|k: int| #![trigger f.blocking[k]]
        0 <= k < f.blocking.len() implies lines[from + 1 + k] == "  - "@ + f.blocking[k] by {
        assert(lines[from + 1 + k] == listed(f.blocking)[k]);
    }
}

/// Every warning about an added line is reported, and does not fail the check.
pub proof fn law_warnings_are_reported(
    r: Report,
    diff_base: Seq<char>,
    added: Seq<AddedView>,
    starts: Seq<usize>,
    i: int,
    warning: Seq<char>,
)
    requires
        starts.len() == added.len(),
        reports_on(r, diff_base, added, matches_of_all(added), starts),
        0 <= i < added.len(),
        warnings_in(added[i]).contains(warning),
    ensures
        texts(r.stderr@).contains("  - "@ + warning),
{
    law_findings_are_those_of_each_line(added, starts, added.len() as int);
    let lists = Seq::new(added.len(), |i: int| warnings_in(added[i]));
    let f = all_findings(added, matches_of_all(added), starts);
    let of_lines = scan_of(added, matches_of_all(added), starts, added.len() as int).findings.warnings;
    lemma_joined_contains(lists, added.len() as int, i, warning);
    let k = choose|k: int| 0 <= k < of_lines.len() && of_lines[k] == warning;
    assert(f.warnings[k] == warning);
    law_every_finding_is_listed(f, warning);
}

/// Every repeated literal is reported.
pub proof fn law_repeated_literals_are_reported(
    r: Report,
    diff_base: Seq<char>,
    added: Seq<AddedView>,
    starts: Seq<usize>,
    file: Seq<char>,
    literal: Seq<char>,
)
    requires
        starts.len() == added.len(),
        reports_on(r, diff_base, added, matches_of_all(added), starts),
        occurrences(added, starts, file, literal, added.len() as int).len() >= 3,
        !has_constant(added, file, literal, added.len() as int),
    ensures
        ({
            let sites = occurrences(added, starts, file, literal, added.len() as int);
            texts(r.stderr@).contains(
                "  - "@ + (file + ": literal "@ + literal + " repeated "@ + decimal(sites.len()) + (
                "x at lines "@ + numbers_of(sites)
                    + " without a named constant -- consider hoisting it"@)),
            )
        }),
{
    law_three_occurrences_are_warned_about(added, starts, file, literal);
    let sites = occurrences(added, starts, file, literal, added.len() as int);
    let f = all_findings(added, matches_of_all(added), starts);
    law_every_finding_is_listed(
        f,
        file + ": literal "@ + literal + " repeated "@ + decimal(sites.len()) + ("x at lines "@
            + numbers_of(sites) + " without a named constant -- consider hoisting it"@),
    );
}

// ---------------------------------------------------------------
// Repeated literals
// ---------------------------------------------------------------

/// True when the literals of a line count: it stands before the test module of
/// its file and holds no attribute.
pub open spec fn is_counted(line: AddedView, start: usize) -> bool {
    &&& line.lineno < start
    &&& !begins_with(trim(line.content), "#["@)
    &&& !begins_with(trim(line.content), "#!["@)
}

/// The given site, once for every match among the first `n` that is the literal.
pub open spec fn repeats(
    literals: Seq<Option<Seq<char>>>,
    literal: Seq<char>,
    site: (Seq<char>, usize),
    n: int,
) -> Seq<(Seq<char>, usize)>
    decreases n,
{
    if n <= 0 {
        Seq::empty()
    } else if literals[n - 1] == Some(literal) {
        repeats(literals, literal, site, n - 1).push(site)
    } else {
        repeats(literals, literal, site, n - 1)
    }
}

/// Where a literal occurs in the counted lines of a file among the first `n`
/// added lines, in their order.
pub open spec fn occurrences(
    added: Seq<AddedView>,
    starts: Seq<usize>,
    file: Seq<char>,
    literal: Seq<char>,
    n: int,
) -> Seq<(Seq<char>, usize)>
    decreases n,
{
    if n <= 0 {
        Seq::empty()
    } else {
        let line = added[n - 1];
        let before = occurrences(added, starts, file, literal, n - 1);
        if line.file == file && is_counted(line, starts[n - 1]) {
            let literals = captured_all(literal_pattern(), trim(line.content), 1);
            before + repeats(
                literals,
                literal,
                (trim(line.content), line.lineno as usize),
                literals.len() as int,
            )
        } else {
            before
        }
    }
}

/// True when one of the first `n` added lines declares a constant of a file with a
/// literal.
pub open spec fn has_constant(
    added: Seq<AddedView>,
    file: Seq<char>,
    literal: Seq<char>,
    n: int,
) -> bool {
    exists|i: int|
        0 <= i < n && (#[trigger] added[i]).file == file && matches_in(
            constant_pattern(),
            trim(added[i].content),
        ) && captured_all(literal_pattern(), trim(added[i].content), 1).contains(Some(literal))
}

proof fn lemma_sites_of_line(
    sites: Seq<SitesView>,
    file: Seq<char>,
    site: (Seq<char>, usize),
    literals: Seq<Option<Seq<char>>>,
    n: int,
    f: Seq<char>,
    l: Seq<char>,
)
    requires
        sites_distinct(sites),
        0 <= n <= literals.len(),
    ensures
        sites_of_literal(with_sites(sites, file, site, literals, n), f, l) == if f == file {
            sites_of_literal(sites, f, l) + repeats(literals, l, site, n)
        } else {
            sites_of_literal(sites, f, l)
        },
    decreases n,
{
    if n > 0 {
        lemma_sites_of_line(sites, file, site, literals, n - 1, f, l);
        law_recording_a_line(sites, file, site, literals, n - 1);
        let before = with_sites(sites, file, site, literals, n - 1);
        if let Some(literal) = literals[n - 1] {
            law_recording_an_occurrence(before, file, literal, site);
            if f == file && l == literal {
                assert(sites_of_literal(sites, f, l) + repeats(literals, l, site, n) =~= (
                sites_of_literal(sites, f, l) + repeats(literals, l, site, n - 1)).push(site));
            }
        }
    } else {
        assert(sites_of_literal(sites, f, l) + repeats(literals, l, site, 0) =~= sites_of_literal(
            sites,
            f,
            l,
        ));
    }
}

/// What is recorded of a literal of a file are its occurrences in the counted
/// lines of that file, in their order.
pub proof fn law_every_occurrence_is_recorded(
    added: Seq<AddedView>,
    starts: Seq<usize>,
    file: Seq<char>,
    literal: Seq<char>,
    n: int,
)
    requires
        0 <= n <= added.len(),
    ensures
        sites_of_literal(
            scan_of(added, matches_of_all(added), starts, n).sites,
            file,
            literal,
        ) == occurrences(added, starts, file, literal, n),
    decreases n,
{
    if n > 0 {
        law_every_occurrence_is_recorded(added, starts, file, literal, n - 1);
        law_literals_are_kept_together(added, matches_of_all(added), starts, n - 1);
        let before = scan_of(added, matches_of_all(added), starts, n - 1).sites;
        let line = added[n - 1];
        let literals = captured_all(literal_pattern(), trim(line.content), 1);
        assert(matches_of_all(added)[n - 1] == matches_of(line));
        lemma_sites_of_line(
            before,
            line.file,
            (trim(line.content), line.lineno as usize),
            literals,
            literals.len() as int,
            file,
            literal,
        );
    }
}

proof fn lemma_noted(file: Seq<char>, literals: Seq<Option<Seq<char>>>, n: int, f: Seq<char>, l: Seq<char>)
    requires
        0 <= n <= literals.len(),
    ensures
        noted(file, literals, n).contains((f, l)) <==> f == file && exists|k: int|
            0 <= k < n && #[trigger] literals[k] == Some(l),
    decreases n,
{
    if n > 0 {
        lemma_noted(file, literals, n - 1, f, l);
        let before = noted(file, literals, n - 1);
        let after = noted(file, literals, n);
        if before.contains((f, l)) {
            let i = choose|i: int| 0 <= i < before.len() && before[i] == (f, l);
            assert(after[i] == (f, l));
        }
        if literals[n - 1] == Some(l) && f == file {
            assert(after[before.len() as int] == (f, l));
        }
        if after.contains((f, l)) {
            let i = choose|i: int| 0 <= i < after.len() && after[i] == (f, l);
            if i < before.len() {
                assert(before[i] == (f, l));
            }
        }
    }
}

/// A literal counts as declared in a file exactly when an added line of that file
/// declares a constant with it.
pub proof fn law_declared_constants_are_known(
    added: Seq<AddedView>,
    starts: Seq<usize>,
    file: Seq<char>,
    literal: Seq<char>,
    n: int,
)
    requires
        0 <= n <= added.len(),
    ensures
        scan_of(added, matches_of_all(added), starts, n).declared.contains((file, literal))
            <==> has_constant(added, file, literal, n),
    decreases n,
{
    if n > 0 {
        law_declared_constants_are_known(added, starts, file, literal, n - 1);
        let before = scan_of(added, matches_of_all(added), starts, n - 1).declared;
        let after = scan_of(added, matches_of_all(added), starts, n).declared;
        let line = added[n - 1];
        let literals = captured_all(literal_pattern(), trim(line.content), 1);
        assert(matches_of_all(added)[n - 1] == matches_of(line));
        let new = noted(line.file, literals, literals.len() as int);
        lemma_noted(line.file, literals, literals.len() as int, file, literal);
        let const_line = matches_in(constant_pattern(), trim(line.content));
        if before.contains((file, literal)) {
            let i = choose|i: int| 0 <= i < before.len() && before[i] == (file, literal);
            assert(after[i] == (file, literal));
            let k = choose|k: int|
                0 <= k < n - 1 && (#[trigger] added[k]).file == file && matches_in(
                    constant_pattern(),
                    trim(added[k].content),
                ) && captured_all(literal_pattern(), trim(added[k].content), 1).contains(Some(literal));
            assert(added[k].file == file);
        }
        if const_line && new.contains((file, literal)) {
            let i = choose|i: int| 0 <= i < new.len() && new[i] == (file, literal);
            assert(after[before.len() + i] == (file, literal));
            let k = choose|k: int| 0 <= k < literals.len() && #[trigger] literals[k] == Some(literal);
            assert(literals.contains(Some(literal)));
            assert(added[n - 1].file == file);
        }
        if after.contains((file, literal)) {
            let i = choose|i: int| 0 <= i < after.len() && after[i] == (file, literal);
            if i < before.len() {
                assert(before[i] == (file, literal));
            } else {
                assert(new[i - before.len()] == (file, literal));
            }
        }
        if has_constant(added, file, literal, n) {
            let k = choose|k: int|
                0 <= k < n && (#[trigger] added[k]).file == file && matches_in(
                    constant_pattern(),
                    trim(added[k].content),
                ) && captured_all(literal_pattern(), trim(added[k].content), 1).contains(Some(literal));
            if k == n - 1 {
                let m = choose|m: int| 0 <= m < literals.len() && literals[m] == Some(literal);
                assert(literals[m] == Some(literal));
            } else {
                assert(added[k].file == file);
            }
        }
    }
}

/// The numbers of a list of lines, separated by commas.
pub open spec fn numbers_of(sites: Seq<(Seq<char>, usize)>) -> Seq<char>
    decreases sites.len(),
{
    if sites.len() == 0 {
        Seq::empty()
    } else if sites.len() == 1 {
        decimal(sites[0].1 as nat)
    } else {
        numbers_of(sites.drop_last()) + ", "@ + decimal(sites.last().1 as nat)
    }
}

proof fn lemma_numbers_of(sites: Seq<(Seq<char>, usize)>, n: int)
    requires
        0 <= n <= sites.len(),
    ensures
        crate::lint::literals::joined_lines(sites, n) == numbers_of(sites.take(n)),
    decreases n,
{
    if n > 1 {
        lemma_numbers_of(sites, n - 1);
        assert(sites.take(n).drop_last() =~= sites.take(n - 1));
    }
}

/// A literal that occurs three times or more in the counted lines of a file, and
/// with which no added line of that file declares a constant, is warned about,
/// with the file, the literal, how often it occurs and in which lines.
pub proof fn law_three_occurrences_are_warned_about(
    added: Seq<AddedView>,
    starts: Seq<usize>,
    file: Seq<char>,
    literal: Seq<char>,
)
    requires
        starts.len() == added.len(),
        occurrences(added, starts, file, literal, added.len() as int).len() >= 3,
        !has_constant(added, file, literal, added.len() as int),
    ensures
        ({
            let sites = occurrences(added, starts, file, literal, added.len() as int);
            all_findings(added, matches_of_all(added), starts).warnings.contains(
                file + ": literal "@ + literal + " repeated "@ + decimal(sites.len()) + (
                "x at lines "@ + numbers_of(sites)
                    + " without a named constant -- consider hoisting it"@),
            )
        }),
{
    let n = added.len() as int;
    let scan = scan_of(added, matches_of_all(added), starts, n);
    let sites = occurrences(added, starts, file, literal, n);
    law_every_occurrence_is_recorded(added, starts, file, literal, n);
    law_declared_constants_are_known(added, starts, file, literal, n);
    lemma_recorded_somewhere(scan.sites, file, literal, 0);
    let k = crate::lint::literals::sites_position(scan.sites, file, literal, 0)->0;
    crate::lint::literals::law_repeated_literals_are_flagged(scan.sites, scan.declared, k);
    let text = crate::lint::literals::repeated_text(scan.sites[k]);
    lemma_numbers_of(sites, sites.len() as int);
    assert(sites.take(sites.len() as int) =~= sites);
    let flagged = repeated_warnings(scan.sites, scan.declared, scan.sites.len() as int);
    let i = choose|i: int| 0 <= i < flagged.len() && flagged[i] == text;
    let all = all_findings(added, matches_of_all(added), starts).warnings;
    assert(all[scan.findings.warnings.len() + i] == text);
}

proof fn lemma_recorded_somewhere(
    sites: Seq<SitesView>,
    file: Seq<char>,
    literal: Seq<char>,
    i: int,
)
    requires
        0 <= i,
    ensures
        match crate::lint::literals::sites_position(sites, file, literal, i) {
            Some(k) => i <= k < sites.len() && sites[k].file == file && sites[k].literal == literal,
            None => true,
        },
    decreases sites.len() - i,
{
    if i < sites.len() {
        lemma_recorded_somewhere(sites, file, literal, i + 1);
    }
}

/// No other literal is warned about: behind the warnings of the lines stands
/// nothing but warnings about literals that occur three times or more and are
/// declared by no added line of their file.
pub proof fn law_only_repeated_literals_are_warned_about(
    added: Seq<AddedView>,
    starts: Seq<usize>,
    w: int,
)
    requires
        starts.len() == added.len(),
        scan_of(added, matches_of_all(added), starts, added.len() as int).findings.warnings.len()
            <= w < all_findings(added, matches_of_all(added), starts).warnings.len(),
    ensures
        exists|file: Seq<char>, literal: Seq<char>|
            {
                let sites = #[trigger] occurrences(
                    added,
                    starts,
                    file,
                    literal,
                    added.len() as int,
                );
                &&& sites.len() >= 3
                &&& !has_constant(added, file, literal, added.len() as int)
                &&& all_findings(added, matches_of_all(added), starts).warnings[w] == file
                    + ": literal "@ + literal + " repeated "@ + decimal(sites.len()) + (
                "x at lines "@ + numbers_of(sites)
                    + " without a named constant -- consider hoisting it"@)
            },
{
    let n = added.len() as int;
    let scan = scan_of(added, matches_of_all(added), starts, n);
    let flagged = repeated_warnings(scan.sites, scan.declared, scan.sites.len() as int);
    let j = w - scan.findings.warnings.len();
    let all = all_findings(added, matches_of_all(added), starts).warnings;
    assert(all[w] == flagged[j]);
    crate::lint::literals::law_flagged_literals_are_repeated(scan.sites, scan.declared, j);
    let k = choose|k: int|
        0 <= k < scan.sites.len() && crate::lint::literals::is_repeated(
            #[trigger] scan.sites[k],
            scan.declared,
        ) && flagged[j] == crate::lint::literals::repeated_text(scan.sites[k]);
    let file = scan.sites[k].file;
    let literal = scan.sites[k].literal;
    law_literals_are_kept_together(added, matches_of_all(added), starts, n);
    law_every_occurrence_is_recorded(added, starts, file, literal, n);
    law_declared_constants_are_known(added, starts, file, literal, n);
    lemma_recorded_here(scan.sites, k, 0);
    let sites = occurrences(added, starts, file, literal, n);
    assert(sites == scan.sites[k].sites);
    lemma_numbers_of(sites, sites.len() as int);
    assert(sites.take(sites.len() as int) =~= sites);
}

proof fn lemma_recorded_here(sites: Seq<SitesView>, k: int, i: int)
    requires
        sites_distinct(sites),
        0 <= i <= k < sites.len(),
    ensures
        crate::lint::literals::sites_position(sites, sites[k].file, sites[k].literal, i) == Some(k),
    decreases k - i,
{
    if i < k {
        assert(!(sites[i].file == sites[k].file && sites[i].literal == sites[k].literal));
        lemma_recorded_here(sites, k, i + 1);
    }
}

// ---------------------------------------------------------------
// Test modules
// ---------------------------------------------------------------

proof fn lemma_first_mark(marks: Seq<bool>, i: int)
    requires
        0 <= i,
    ensures
        match first_mark(marks, i) {
            Some(k) => i <= k < marks.len() && marks[k] && forall|j: int|
                i <= j < k ==> !#[trigger] marks[j],
            None => forall|j: int| i <= j < marks.len() ==> !#[trigger] marks[j],
        },
    decreases marks.len() - i,
{
    if i < marks.len() {
        lemma_first_mark(marks, i + 1);
    }
}

/// A line stands before the test module of its file exactly when no line up to it
/// opens one.
pub proof fn law_test_modules_start_at_their_first_line(marks: Seq<bool>, lineno: usize)
    requires
        marks.len() < usize::MAX,
        1 <= lineno <= marks.len(),
    ensures
        lineno < start_of(marks) <==> forall|j: int| 0 <= j < lineno ==> !#[trigger] marks[j],
{
    lemma_first_mark(marks, 0);
}

/// A line of a source stands before its test module exactly when the pattern for
/// test modules matches no line up to it.
pub proof fn law_test_modules_are_found_by_their_pattern(source: Seq<char>, lineno: usize)
    requires
        lines_of(source).len() < usize::MAX,
        1 <= lineno <= lines_of(source).len(),
    ensures
        lineno < start_of(module_marks(source)) <==> forall|j: int|
            0 <= j < lineno ==> !matches_in(test_module_pattern(), #[trigger] lines_of(source)[j]),
{
    let marks = module_marks(source);
    law_test_modules_start_at_their_first_line(marks, lineno);
    if lineno < start_of(marks) {
        assert forall|j: int| 0 <= j < lineno implies !matches_in(
            test_module_pattern(),
            #[trigger] lines_of(source)[j],
        ) by {
            assert(!marks[j]);
        }
    }
    if forall|j: int|
        0 <= j < lineno ==> !matches_in(test_module_pattern(), #[trigger] lines_of(source)[j]) {
        assert forall|j: int| 0 <= j < lineno implies !#[trigger] marks[j] by {
            assert(!matches_in(test_module_pattern(), lines_of(source)[j]));
        }
    }
}

// ---------------------------------------------------------------
// Diffs
// ---------------------------------------------------------------

/// What to diff against is, in this order, what the caller names, what is
/// configured, the branch that a change is to be merged into, and `origin/main`.
pub proof fn law_the_nearest_base_wins(
    named: Option<Seq<char>>,
    configured: Option<Seq<char>>,
    branch: Option<Seq<char>>,
)
    ensures
        named matches Some(base) ==> diff_base_of(named, configured, branch) == base,
        named is None ==> (configured matches Some(base) ==> diff_base_of(
            named,
            configured,
            branch,
        ) == base),
        named is None && configured is None ==> (branch matches Some(b) ==> b.len() > 0
            ==> diff_base_of(named, configured, branch) == "origin/"@ + b),
        named is None && configured is None && (branch is None || (branch->0).len() == 0)
            ==> diff_base_of(named, configured, branch) == "origin/main"@,
{
}

/// The number in a hunk header is what the pattern for hunk headers captures in the
/// line.
pub proof fn law_hunk_headers_are_read_by_their_pattern(lines: Seq<Seq<char>>, i: int)
    requires
        0 <= i < lines.len(),
    ensures
        headers_of(lines).len() == lines.len(),
        headers_of(lines)[i] == captured(hunk_pattern(), lines[i], 1),
{
}

/// What a diff adds is found line by line: each line is read at the point that the
/// lines before it have led to, and nothing is known before the first.
pub proof fn law_diffs_are_read_line_by_line(
    lines: Seq<Seq<char>>,
    headers: Seq<Option<Seq<char>>>,
    n: int,
)
    requires
        0 <= n < lines.len(),
    ensures
        diff_after(lines, headers, n + 1) == diff_read(
            diff_after(lines, headers, n),
            lines[n],
            headers[n],
        ),
        !diff_after(lines, headers, 0).in_hunk,
        diff_after(lines, headers, 0).added.len() == 0,
        added_by(lines, headers) == diff_after(lines, headers, lines.len() as int).added,
{
}

proof fn lemma_count_grows(
    lines: Seq<Seq<char>>,
    headers: Seq<Option<Seq<char>>>,
    most: nat,
    n: int,
)
    requires
        0 <= n <= lines.len(),
        headers.len() == lines.len(),
        forall|i: int|
            0 <= i < headers.len() && #[trigger] headers[i] is Some ==> (unsigned_value(
                headers[i]->0,
                usize::MAX as nat,
            ) matches Some(k) ==> k <= most),
    ensures
        diff_after(lines, headers, n).lineno <= most + n,
    decreases n,
{
    if n > 0 {
        lemma_count_grows(lines, headers, most, n - 1);
        assert(headers[n - 1] is Some || headers[n - 1] is None);
    }
}

/// A diff can be read as long as no number in a hunk header, together with the
/// number of lines, goes beyond what a machine integer holds.
pub proof fn law_ordinary_diffs_can_be_read(
    lines: Seq<Seq<char>>,
    headers: Seq<Option<Seq<char>>>,
    most: nat,
)
    requires
        headers.len() == lines.len(),
        forall|i: int|
            0 <= i < headers.len() && #[trigger] headers[i] is Some ==> (unsigned_value(
                headers[i]->0,
                usize::MAX as nat,
            ) matches Some(k) ==> k <= most),
        most + lines.len() <= usize::MAX,
    ensures
        numbers_fit(lines, headers),
{
    assert forall|n: int| 0 <= n <= lines.len() implies (#[trigger] diff_after(
        lines,
        headers,
        n,
    )).lineno <= usize::MAX by {
        lemma_count_grows(lines, headers, most, n);
    }
}

/// True when a line begins with a character.
pub open spec fn starts(line: Seq<char>, c: char) -> bool {
    line.len() > 0 && line[0] == c
}

/// In a hunk, a line that begins with a plus sign is an added line of the file,
/// with what follows the sign as its text and the number that the count has
/// reached; the count goes on behind it. A line that begins with a minus sign or a
/// backslash is passed over. A hunk header sets the count. Any other line but the
/// beginning of the next file is common to both sides and is counted.
pub proof fn law_lines_of_a_hunk(point: DiffPoint, line: Seq<char>, header: Option<Seq<char>>)
    requires
        point.in_hunk,
    ensures
        ({
            let after = diff_read(point, line, header);
            &&& after.file == point.file
            &&& starts(line, '+') ==> {
                &&& after.in_hunk
                &&& after.lineno == point.lineno + 1
                &&& after.added == point.added.push(
                    AddedView {
                        file: point.file,
                        lineno: point.lineno,
                        content: line.drop_first(),
                    },
                )
            }
            &&& !starts(line, '+') ==> after.added == point.added
            &&& starts(line, '-') || starts(line, '\\') ==> after == point
            &&& begins_with(line, "diff --git "@) ==> !after.in_hunk && after.lineno == point.lineno
            &&& !starts(line, '+') && !starts(line, '-') && !starts(line, '\\') && !begins_with(
                line,
                "diff --git "@,
            ) ==> after.in_hunk && match header {
                Some(number) => match unsigned_value(number, usize::MAX as nat) {
                    Some(n) => after.lineno == n,
                    None => after.lineno == 0,
                },
                None => after.lineno == point.lineno + 1,
            }
        }),
{
    lemma_line_starts(line);
    if starts(line, '+') {
        assert(line.skip(1) =~= line.drop_first());
    }
}

proof fn lemma_line_starts(line: Seq<char>)
    ensures
        begins_with(line, "+"@) <==> starts(line, '+'),
        begins_with(line, "-"@) <==> starts(line, '-'),
        begins_with(line, "\\"@) <==> starts(line, '\\'),
        begins_with(line, "+++ b/"@) ==> starts(line, '+'),
        begins_with(line, "+++"@) ==> starts(line, '+'),
        begins_with(line, "---"@) ==> starts(line, '-'),
        begins_with(line, "diff --git "@) ==> starts(line, 'd'),
        "+"@.len() == 1,
{
    reveal_strlit("+");
    reveal_strlit("-");
    reveal_strlit("\\");
    reveal_strlit("+++ b/");
    reveal_strlit("+++");
    reveal_strlit("---");
    reveal_strlit("diff --git ");
    if line.len() > 0 {
        let first = line.subrange(0, 1);
        assert(first[0] == line[0]);
        if starts(line, '+') {
            assert(first =~= "+"@);
        }
        if starts(line, '-') {
            assert(first =~= "-"@);
        }
        if starts(line, '\\') {
            assert(first =~= "\\"@);
        }
    }
    if begins_with(line, "+"@) {
        assert(line.subrange(0, 1)[0] == "+"@[0]);
    }
    if begins_with(line, "-"@) {
        assert(line.subrange(0, 1)[0] == "-"@[0]);
    }
    if begins_with(line, "\\"@) {
        assert(line.subrange(0, 1)[0] == "\\"@[0]);
    }
    if begins_with(line, "+++ b/"@) {
        assert(line.subrange(0, 6)[0] == "+++ b/"@[0]);
    }
    if begins_with(line, "+++"@) {
        assert(line.subrange(0, 3)[0] == "+++"@[0]);
    }
    if begins_with(line, "---"@) {
        assert(line.subrange(0, 3)[0] == "---"@[0]);
    }
    if begins_with(line, "diff --git "@) {
        assert(line.subrange(0, 11)[0] == "diff --git "@[0]);
    }
}

/// Between hunks, the line that names the new side of a file says which file the
/// next hunks are of; other lines of the header of a file are passed over, and a
/// hunk header begins a hunk at the number that it gives.
pub proof fn law_lines_between_hunks(point: DiffPoint, line: Seq<char>, header: Option<Seq<char>>)
    requires
        !point.in_hunk,
    ensures
        ({
            let after = diff_read(point, line, header);
            &&& begins_with(line, "+++ b/"@) ==> after == (DiffPoint {
                file: line.skip(6),
                ..point
            })
            &&& !begins_with(line, "+++ b/"@) ==> after.file == point.file
            &&& begins_with(line, "---"@) || (begins_with(line, "+++"@) && !begins_with(
                line,
                "+++ b/"@,
            )) ==> after == point
            &&& !starts(line, '+') ==> after.added == point.added
            &&& !starts(line, '+') && !starts(line, '-') && !starts(line, '\\') && !begins_with(
                line,
                "diff --git "@,
            ) ==> (header matches Some(number) ==> after.in_hunk && after.lineno
                == match unsigned_value(number, usize::MAX as nat) {
                Some(n) => n,
                None => 0,
            })
            &&& header is None ==> !after.in_hunk
        }),
{
    lemma_line_starts(line);
    reveal_strlit("+++ b/");
}

} // verus!
