//! The checks on single added lines.
//!
//! Each check takes what the patterns found in the line and appends its
//! finding, if it has one.

use vstd::prelude::*;
use vstd::string::*;
use crate::lint::diff::{AddedLine, AddedView};
use crate::numeral::{decimal, to_decimal};
use crate::text::{
    begins_with, chars_of, debug_form, first_is, join6, join2, lowercase_form, lowercased, opt_str,
    quoted, starts_with, texts, trim, trimmed,
};

verus! {

// ---------------------------------------------------------------
// Findings
// ---------------------------------------------------------------

/// Findings collected while scanning the diff, split by severity.
#[derive(Debug)]
pub struct Findings {
    /// Findings that fail the check when non-empty.
    pub blocking: Vec<String>,
    /// Findings printed for human review; never fail the check.
    pub warnings: Vec<String>,
}

/// Findings as contracts speak of them.
pub struct FindingsView {
    /// Findings that fail the check.
    pub blocking: Seq<Seq<char>>,
    /// Findings that do not.
    pub warnings: Seq<Seq<char>>,
}

impl Findings {
    /// The texts of the findings.
    pub open spec fn view(&self) -> FindingsView {
        FindingsView { blocking: texts(self.blocking@), warnings: texts(self.warnings@) }
    }

    /// No findings.
    pub fn new() -> (r: Self)
        ensures
            r@ == no_findings(),
    {
        let r = Findings { blocking: Vec::new(), warnings: Vec::new() };
        assert(texts(r.blocking@) =~= Seq::empty());
        assert(texts(r.warnings@) =~= Seq::empty());
        r
    }

    fn block(&mut self, finding: String)
        ensures
            final(self)@ == blocked(old(self)@, Some(finding@)),
    {
        let ghost before = self.blocking@;
        self.blocking.push(finding);
        assert(texts(self.blocking@) =~= texts(before).push(finding@));
    }

    /// Appends a finding that does not fail the check.
    pub fn warn(&mut self, finding: String)
        ensures
            final(self)@ == warned(old(self)@, Some(finding@)),
    {
        let ghost before = self.warnings@;
        self.warnings.push(finding);
        assert(texts(self.warnings@) =~= texts(before).push(finding@));
    }
}

/// No findings.
pub open spec fn no_findings() -> FindingsView {
    FindingsView { blocking: Seq::empty(), warnings: Seq::empty() }
}

/// The findings with one more that fails the check, if there is one.
pub open spec fn blocked(f: FindingsView, finding: Option<Seq<char>>) -> FindingsView {
    match finding {
        Some(text) => FindingsView { blocking: f.blocking.push(text), ..f },
        None => f,
    }
}

/// The findings with one more that does not fail the check, if there is one.
pub open spec fn warned(f: FindingsView, finding: Option<Seq<char>>) -> FindingsView {
    match finding {
        Some(text) => FindingsView { warnings: f.warnings.push(text), ..f },
        None => f,
    }
}

/// How a finding reads: the place, what was found, and the line.
pub open spec fn finding_text(line: AddedView, what: Seq<char>, stripped: Seq<char>) -> Seq<char> {
    line.file + ":"@ + decimal(line.lineno) + ": "@ + what + debug_form(stripped)
}

fn describe(line: &AddedLine, what: &str, stripped: &str) -> (r: String)
    ensures
        r@ == finding_text(line@, what@, stripped@),
{
    join6(&line.file, ":", &to_decimal(line.lineno as u64), ": ", what, &quoted(stripped))
}

// ---------------------------------------------------------------
// Comments
// ---------------------------------------------------------------

/// The length of the character literal of a double quote that stands at
/// position `i`, plain or escaped; zero, if none does.
pub open spec fn quote_literal(content: Seq<char>, i: int) -> int {
    if i + 2 < content.len() && content[i] == '\'' && content[i + 1] == '"' && content[i + 2]
        == '\'' {
        3
    } else if i + 3 < content.len() && content[i] == '\'' && content[i + 1] == '\\' && content[i
        + 2] == '"' && content[i + 3] == '\'' {
        4
    } else {
        0
    }
}

/// True when two given characters stand side by side at position `i`.
pub open spec fn pair_at(content: Seq<char>, i: int, first: char, second: char) -> bool {
    0 <= i && i + 1 < content.len() && content[i] == first && content[i + 1] == second
}

/// True when a double quote that no backslash escapes stands at position `i`
/// or behind it.
pub open spec fn text_closes(content: Seq<char>, i: int) -> bool
    decreases content.len() - i,
{
    if i < 0 || i >= content.len() {
        false
    } else if content[i] == '\\' {
        i + 1 < content.len() && text_closes(content, i + 2)
    } else {
        content[i] == '"' || text_closes(content, i + 1)
    }
}

/// The number of hash signs right before position `i`.
pub open spec fn hashes_before(content: Seq<char>, i: int) -> int
    decreases i,
{
    if i <= 0 || i > content.len() || content[i - 1] != '#' {
        0
    } else {
        1 + hashes_before(content, i - 1)
    }
}

/// True when the double quote at position `i` opens a raw string literal: an
/// `r` stands before it and its hash signs.
pub open spec fn opens_raw(content: Seq<char>, i: int) -> bool {
    let r = i - hashes_before(content, i) - 1;
    0 <= r < content.len() && content[r] == 'r'
}

/// True when a double quote with a number of hash signs behind it stands at
/// position `i`.
pub open spec fn raw_ends_at(content: Seq<char>, i: int, hashes: int) -> bool {
    &&& 0 <= i && i + hashes < content.len()
    &&& content[i] == '"'
    &&& forall|h: int| i < h <= i + hashes ==> #[trigger] content[h] == '#'
}

/// True when a raw string literal ends at position `i` or behind it.
pub open spec fn raw_closes(content: Seq<char>, i: int, hashes: int) -> bool {
    exists|j: int| i <= j && #[trigger] raw_ends_at(content, j, hashes)
}

/// True when a block comment ends at position `i` or behind it.
pub open spec fn block_closes(content: Seq<char>, i: int) -> bool {
    exists|j: int| i <= j && #[trigger] pair_at(content, j, '*', '/')
}

/// What a reader of a line is in.
pub enum Reading {
    /// Code.
    Code,
    /// A string literal.
    Text,
    /// A raw string literal with a number of hash signs.
    Raw(int),
    /// A block comment.
    Block,
}

/// The first position from `i` on where two slashes stand.
pub open spec fn slashes_from(content: Seq<char>, i: int) -> Option<int>
    decreases content.len() - i,
{
    if i < 0 || i >= content.len() {
        None
    } else if pair_at(content, i, '/', '/') {
        Some(i)
    } else {
        slashes_from(content, i + 1)
    }
}

/// The first position from `i` on where a comment starts: two slashes outside
/// the string literals that end on the line.
///
/// A double quote that nothing closes on the line opens no literal. It belongs
/// to one of several lines; where no comment is found on such a line (`open`),
/// what is code cannot be told, and the first two slashes count.
pub open spec fn comment_start(content: Seq<char>, i: int, reading: Reading, open: bool) -> Option<
    int,
>
    decreases content.len() - i,
{
    if i < 0 || i >= content.len() {
        if open {
            slashes_from(content, 0)
        } else {
            None
        }
    } else {
        match reading {
            Reading::Text => if content[i] == '\\' && i + 1 < content.len() {
                comment_start(content, i + 2, reading, open)
            } else if content[i] == '"' {
                comment_start(content, i + 1, Reading::Code, open)
            } else {
                comment_start(content, i + 1, reading, open)
            },
            Reading::Raw(hashes) => if raw_ends_at(content, i, hashes) {
                comment_start(content, i + 1, Reading::Code, open)
            } else {
                comment_start(content, i + 1, reading, open)
            },
            Reading::Block => if pair_at(content, i, '*', '/') {
                comment_start(content, i + 1, Reading::Code, open)
            } else if pair_at(content, i, '/', '/') {
                Some(i)
            } else {
                comment_start(content, i + 1, reading, open)
            },
            Reading::Code => if pair_at(content, i, '/', '/') {
                Some(i)
            } else if pair_at(content, i, '/', '*') && block_closes(content, i + 2) {
                comment_start(content, i + 2, Reading::Block, open)
            } else if quote_literal(content, i) > 0 {
                comment_start(content, i + quote_literal(content, i), reading, open)
            } else if content[i] != '"' {
                comment_start(content, i + 1, reading, open)
            } else if opens_raw(content, i) {
                if raw_closes(content, i + 1, hashes_before(content, i)) {
                    comment_start(
                        content,
                        i + 1,
                        Reading::Raw(hashes_before(content, i)),
                        open,
                    )
                } else {
                    comment_start(content, i + 1, reading, true)
                }
            } else if text_closes(content, i + 1) {
                comment_start(content, i + 1, Reading::Text, open)
            } else {
                comment_start(content, i + 1, reading, true)
            },
        }
    }
}

/// Where the trailing comment of a line starts, if it has one.
pub open spec fn comment_at(content: Seq<char>) -> Option<int> {
    comment_start(content, 0, Reading::Code, false)
}

/// The trailing comment of a line without the white space around it; empty,
/// if there is none.
pub open spec fn comment_of(content: Seq<char>) -> Seq<char> {
    match comment_at(content) {
        Some(at) => trim(content.skip(at)),
        None => Seq::empty(),
    }
}

fn quote_literal_len(chars: &Vec<char>, i: usize) -> (r: usize)
    requires
        i < chars@.len(),
    ensures
        r == quote_literal(chars@, i as int),
        i + r <= chars@.len(),
{
    let left = chars.len() - i;
    if left > 2 && chars[i] == '\'' && chars[i + 1] == '"' && chars[i + 2] == '\'' {
        3
    } else if left > 3 && chars[i] == '\'' && chars[i + 1] == '\\' && chars[i + 2] == '"'
        && chars[i + 3] == '\'' {
        4
    } else {
        0
    }
}

fn is_pair_at(chars: &Vec<char>, i: usize, first: char, second: char) -> (r: bool)
    requires
        i < chars@.len(),
    ensures
        r == pair_at(chars@, i as int, first, second),
{
    chars.len() - i > 1 && chars[i] == first && chars[i + 1] == second
}

fn text_ends(chars: &Vec<char>, from: usize) -> (r: bool)
    requires
        from <= chars@.len(),
    ensures
        r == text_closes(chars@, from as int),
{
    let n = chars.len();
    let mut i: usize = from;
    while i < n
        invariant
            n == chars@.len(),
            text_closes(chars@, from as int) == text_closes(chars@, i as int),
        decreases n - i,
    {
        if chars[i] == '"' {
            return true;
        }
        if chars[i] == '\\' {
            if n - i == 1 {
                return false;
            }
            i += 2;
        } else {
            i += 1;
        }
    }
    false
}

fn count_hashes_before(chars: &Vec<char>, i: usize) -> (r: usize)
    requires
        i <= chars@.len(),
    ensures
        r == hashes_before(chars@, i as int),
        r <= i,
{
    let mut count: usize = 0;
    while count < i && chars[i - count - 1] == '#'
        invariant
            i <= chars@.len(),
            count <= i,
            hashes_before(chars@, i as int) == count + hashes_before(chars@, i - count),
        decreases i - count,
    {
        count += 1;
    }
    count
}

fn is_raw_end_at(chars: &Vec<char>, i: usize, hashes: usize) -> (r: bool)
    requires
        i < chars@.len(),
    ensures
        r == raw_ends_at(chars@, i as int, hashes as int),
{
    let n = chars.len();
    if chars[i] != '"' || n - i <= hashes {
        return false;
    }
    let mut h: usize = 0;
    while h < hashes
        invariant
            n == chars@.len(),
            i + hashes < n,
            h <= hashes,
            forall|k: int| i < k <= i + h ==> #[trigger] chars@[k] == '#',
        decreases hashes - h,
    {
        if chars[i + h + 1] != '#' {
            assert(chars@[i + h + 1] != '#');
            return false;
        }
        h += 1;
    }
    true
}

fn raw_ends(chars: &Vec<char>, from: usize, hashes: usize) -> (r: bool)
    requires
        from <= chars@.len(),
    ensures
        r == raw_closes(chars@, from as int, hashes as int),
{
    let mut i: usize = from;
    while i < chars.len()
        invariant
            from <= i <= chars@.len(),
            forall|j: int| from <= j < i ==> !#[trigger] raw_ends_at(chars@, j, hashes as int),
        decreases chars.len() - i,
    {
        if is_raw_end_at(chars, i, hashes) {
            return true;
        }
        i += 1;
    }
    false
}

fn block_ends(chars: &Vec<char>, from: usize) -> (r: bool)
    requires
        from <= chars@.len(),
    ensures
        r == block_closes(chars@, from as int),
{
    let mut i: usize = from;
    while i < chars.len()
        invariant
            from <= i <= chars@.len(),
            forall|j: int| from <= j < i ==> !#[trigger] pair_at(chars@, j, '*', '/'),
        decreases chars.len() - i,
    {
        if is_pair_at(chars, i, '*', '/') {
            return true;
        }
        i += 1;
    }
    false
}

fn find_slashes(chars: &Vec<char>) -> (r: Option<usize>)
    ensures
        match slashes_from(chars@, 0) {
            Some(at) => r matches Some(i) && i == at && i < chars@.len(),
            None => r is None,
        },
{
    let mut i: usize = 0;
    while i < chars.len()
        invariant
            i <= chars@.len(),
            slashes_from(chars@, 0) == slashes_from(chars@, i as int),
        decreases chars.len() - i,
    {
        if is_pair_at(chars, i, '/', '/') {
            return Some(i);
        }
        i += 1;
    }
    None
}

/// What [`find_comment`] is in.
#[derive(Clone, Copy, Debug)]
enum Mode {
    Code,
    Text,
    Raw(usize),
    Block,
}

impl Mode {
    spec fn view(&self) -> Reading {
        match self {
            Mode::Code => Reading::Code,
            Mode::Text => Reading::Text,
            Mode::Raw(hashes) => Reading::Raw(*hashes as int),
            Mode::Block => Reading::Block,
        }
    }
}

/// What a double quote at position `i` of code opens on its line, if anything.
fn mode_at_quote(chars: &Vec<char>, i: usize) -> (r: Option<Mode>)
    requires
        i < chars@.len(),
    ensures
        match r {
            Some(mode) => if opens_raw(chars@, i as int) {
                mode@ == Reading::Raw(hashes_before(chars@, i as int)) && raw_closes(
                    chars@,
                    i + 1,
                    hashes_before(chars@, i as int),
                )
            } else {
                mode@ == Reading::Text && text_closes(chars@, i + 1)
            },
            None => if opens_raw(chars@, i as int) {
                !raw_closes(chars@, i + 1, hashes_before(chars@, i as int))
            } else {
                !text_closes(chars@, i + 1)
            },
        },
{
    let n = chars.len();
    let hashes = count_hashes_before(chars, i);
    assert(i + 1 <= n);
    if hashes < i && chars[i - hashes - 1] == 'r' {
        if raw_ends(chars, i + 1, hashes) {
            Some(Mode::Raw(hashes))
        } else {
            None
        }
    } else if text_ends(chars, i + 1) {
        Some(Mode::Text)
    } else {
        None
    }
}

fn find_comment(chars: &Vec<char>) -> (r: Option<usize>)
    ensures
        match comment_at(chars@) {
            Some(at) => r matches Some(i) && i == at && i < chars@.len(),
            None => r is None,
        },
{
    let n = chars.len();
    let mut mode = Mode::Code;
    let mut open = false;
    let mut i: usize = 0;
    while i < n
        invariant
            n == chars@.len(),
            comment_at(chars@) == comment_start(chars@, i as int, mode@, open),
        decreases n - i,
    {
        match mode {
            Mode::Text => {
                if chars[i] == '\\' && n - i > 1 {
                    i += 2;
                } else {
                    if chars[i] == '"' {
                        mode = Mode::Code;
                    }
                    i += 1;
                }
            },
            Mode::Raw(hashes) => {
                if is_raw_end_at(chars, i, hashes) {
                    mode = Mode::Code;
                }
                i += 1;
            },
            Mode::Block => {
                if is_pair_at(chars, i, '*', '/') {
                    mode = Mode::Code;
                    i += 1;
                } else if is_pair_at(chars, i, '/', '/') {
                    return Some(i);
                } else {
                    i += 1;
                }
            },
            Mode::Code => {
                if is_pair_at(chars, i, '/', '/') {
                    return Some(i);
                }
                let skipped = quote_literal_len(chars, i);
                if is_pair_at(chars, i, '/', '*') && block_ends(chars, i + 2) {
                    mode = Mode::Block;
                    i += 2;
                } else if skipped > 0 {
                    i += skipped;
                } else {
                    if chars[i] == '"' {
                        match mode_at_quote(chars, i) {
                            Some(opened) => {
                                mode = opened;
                            },
                            None => {
                                open = true;
                            },
                        }
                    }
                    i += 1;
                }
            },
        }
    }
    if open {
        find_slashes(chars)
    } else {
        None
    }
}

/// Extract the trailing `//`-style comment from a line, if any. Two slashes
/// inside a string literal that ends on the line start none.
pub fn comment_text(content: &str) -> (r: String)
    ensures
        r@ == comment_of(content@),
{
    let chars = chars_of(content);
    match find_comment(&chars) {
        Some(at) => {
            let n = chars.len();
            let rest = content.substring_char(at, n);
            assert(rest@ =~= content@.skip(at as int));
            trimmed(rest).to_owned()
        },
        None => {
            let none = String::new();
            assert(none@ =~= Seq::<char>::empty());
            none
        },
    }
}

proof fn lemma_comment_of_plain_line(content: Seq<char>, i: int)
    requires
        0 <= i,
        !content.contains('"'),
    ensures
        comment_start(content, i, Reading::Code, false) == slashes_from(content, i),
        comment_start(content, i, Reading::Block, false) == slashes_from(content, i),
    decreases content.len() - i,
{
    if i < content.len() {
        lemma_comment_of_plain_line(content, i + 1);
        assert(content[i] != '"');
        assert(quote_literal(content, i) == 0) by {
            if i + 1 < content.len() {
                assert(content.contains(content[i + 1]));
            }
            if i + 2 < content.len() {
                assert(content.contains(content[i + 2]));
            }
        }
        if pair_at(content, i, '/', '*') {
            lemma_comment_of_plain_line(content, i + 2);
            assert(slashes_from(content, i + 1) == slashes_from(content, i + 2));
        }
    }
}

/// True when a comment documents an item.
pub open spec fn is_doc_comment(comment: Seq<char>) -> bool {
    begins_with(comment, "///"@) || begins_with(comment, "//!"@)
}

/// The finding for a leftover marker.
pub open spec fn todo_finding(
    line: AddedView,
    stripped: Seq<char>,
    comment: Seq<char>,
    matched: bool,
) -> Option<Seq<char>> {
    if comment.len() > 0 && matched {
        Some(finding_text(line, "leftover TODO/FIXME/XXX/HACK marker: "@, stripped))
    } else {
        None
    }
}

/// Block: a leftover `TODO`/`FIXME`/`XXX`/`HACK` marker in a comment.
pub fn check_todo_marker(
    line: &AddedLine,
    stripped: &str,
    comment: &str,
    matched: bool,
    findings: &mut Findings,
)
    ensures
        final(findings)@ == blocked(
            old(findings)@,
            todo_finding(line@, stripped@, comment@, matched),
        ),
{
    if comment.unicode_len() > 0 && matched {
        findings.block(describe(line, "leftover TODO/FIXME/XXX/HACK marker: ", stripped));
    }
}

/// The finding for commented-out code.
pub open spec fn code_finding(
    line: AddedView,
    stripped: Seq<char>,
    comment: Seq<char>,
    matched: bool,
) -> Option<Seq<char>> {
    if comment.len() > 0 && !is_doc_comment(comment) && matched {
        Some(finding_text(line, "looks like commented-out code: "@, stripped))
    } else {
        None
    }
}

/// Block: a comment that looks like commented-out code rather than prose.
pub fn check_commented_out_code(
    line: &AddedLine,
    stripped: &str,
    comment: &str,
    matched: bool,
    findings: &mut Findings,
)
    ensures
        final(findings)@ == blocked(
            old(findings)@,
            code_finding(line@, stripped@, comment@, matched),
        ),
{
    let doc = starts_with(comment, "///") || starts_with(comment, "//!");
    if comment.unicode_len() > 0 && !doc && matched {
        findings.block(describe(line, "looks like commented-out code: ", stripped));
    }
}

/// True when a comment opens with words that narrate "what" the following
/// code does rather than "why" it exists.
pub open spec fn narrates(body: Seq<char>) -> bool {
    ||| begins_with(body, "increment"@)
    ||| begins_with(body, "decrement"@)
    ||| begins_with(body, "loop through"@)
    ||| begins_with(body, "iterate over"@)
    ||| begins_with(body, "iterate through"@)
    ||| begins_with(body, "return the"@)
    ||| begins_with(body, "returns the"@)
    ||| begins_with(body, "create a"@)
    ||| begins_with(body, "creates a"@)
    ||| begins_with(body, "initialize"@)
    ||| begins_with(body, "set the"@)
    ||| begins_with(body, "sets the"@)
    ||| begins_with(body, "get the"@)
    ||| begins_with(body, "gets the"@)
    ||| begins_with(body, "parse the"@)
    ||| begins_with(body, "parses the"@)
    ||| begins_with(body, "convert "@)
    ||| begins_with(body, "converts "@)
    ||| begins_with(body, "check if"@)
    ||| begins_with(body, "checks if"@)
    ||| begins_with(body, "validate that"@)
    ||| begins_with(body, "validates that"@)
    ||| begins_with(body, "call "@)
    ||| begins_with(body, "calls "@)
    ||| begins_with(body, "define "@)
    ||| begins_with(body, "defines "@)
    ||| begins_with(body, "import "@)
    ||| begins_with(body, "imports "@)
    ||| begins_with(body, "declare "@)
    ||| begins_with(body, "declares "@)
    ||| begins_with(body, "instantiate"@)
    ||| begins_with(body, "loop over"@)
    ||| begins_with(body, "append "@)
    ||| begins_with(body, "appends "@)
    ||| begins_with(body, "remove "@)
    ||| begins_with(body, "removes "@)
    ||| begins_with(body, "add "@)
    ||| begins_with(body, "adds "@)
}

/// Decides whether a comment, in lower case, opens with narrating words.
pub fn is_narrating(body: &str) -> (r: bool)
    ensures
        r == narrates(body@),
{
    starts_with(body, "increment") || starts_with(body, "decrement") || starts_with(
        body,
        "loop through",
    ) || starts_with(body, "iterate over") || starts_with(body, "iterate through") || starts_with(
        body,
        "return the",
    ) || starts_with(body, "returns the") || starts_with(body, "create a") || starts_with(
        body,
        "creates a",
    ) || starts_with(body, "initialize") || starts_with(body, "set the") || starts_with(
        body,
        "sets the",
    ) || starts_with(body, "get the") || starts_with(body, "gets the") || starts_with(
        body,
        "parse the",
    ) || starts_with(body, "parses the") || starts_with(body, "convert ") || starts_with(
        body,
        "converts ",
    ) || starts_with(body, "check if") || starts_with(body, "checks if") || starts_with(
        body,
        "validate that",
    ) || starts_with(body, "validates that") || starts_with(body, "call ") || starts_with(
        body,
        "calls ",
    ) || starts_with(body, "define ") || starts_with(body, "defines ") || starts_with(
        body,
        "import ",
    ) || starts_with(body, "imports ") || starts_with(body, "declare ") || starts_with(
        body,
        "declares ",
    ) || starts_with(body, "instantiate") || starts_with(body, "loop over") || starts_with(
        body,
        "append ",
    ) || starts_with(body, "appends ") || starts_with(body, "remove ") || starts_with(
        body,
        "removes ",
    ) || starts_with(body, "add ") || starts_with(body, "adds ")
}

/// A text without its leading slashes.
pub open spec fn without_slashes(s: Seq<char>) -> Seq<char>
    decreases s.len(),
{
    if first_is(s, '/') {
        without_slashes(s.drop_first())
    } else {
        s
    }
}

fn strip_slashes<'a>(s: &'a str) -> (r: &'a str)
    ensures
        r@ == without_slashes(s@),
{
    let chars = chars_of(s);
    let n = chars.len();
    let mut i: usize = 0;
    assert(s@.skip(0) =~= s@);
    while i < n && chars[i] == '/'
        invariant
            chars@ == s@,
            n == chars@.len(),
            i <= n,
            without_slashes(s@) == without_slashes(s@.skip(i as int)),
        decreases n - i,
    {
        assert(s@.skip(i as int).drop_first() =~= s@.skip(i + 1));
        i += 1;
    }
    assert(s@.subrange(i as int, n as int) =~= s@.skip(i as int));
    s.substring_char(i, n)
}

/// The finding for a narrating comment.
pub open spec fn narrating_finding(
    line: AddedView,
    stripped: Seq<char>,
    comment: Seq<char>,
) -> Option<Seq<char>> {
    if begins_with(comment, "//"@) && !is_doc_comment(comment) && narrates(
        lowercase_form(trim(without_slashes(comment))),
    ) {
        Some(
            finding_text(
                line,
                "narrating 'what' comment, prefer self-explanatory code or a doc comment on why: "@,
                stripped,
            ),
        )
    } else {
        None
    }
}

/// Warn: a comment narrating "what" the following code does.
pub fn check_narrating_comment(
    line: &AddedLine,
    stripped: &str,
    comment: &str,
    findings: &mut Findings,
)
    ensures
        final(findings)@ == warned(
            old(findings)@,
            narrating_finding(line@, stripped@, comment@),
        ),
{
    if !starts_with(comment, "//") || starts_with(comment, "///") || starts_with(comment, "//!") {
        return;
    }
    let body = lowercased(trimmed(strip_slashes(comment)));
    if is_narrating(&body) {
        findings.warn(
            describe(
                line,
                "narrating 'what' comment, prefer self-explanatory code or a doc comment on why: ",
                stripped,
            ),
        );
    }
}

// ---------------------------------------------------------------
// Code
// ---------------------------------------------------------------

/// The finding for a weak identifier name.
pub open spec fn weak_name_finding(
    line: AddedView,
    stripped: Seq<char>,
    name: Option<Seq<char>>,
) -> Option<Seq<char>> {
    match name {
        Some(n) => Some(
            finding_text(line, "weak/generic identifier name "@ + debug_form(n) + ": "@, stripped),
        ),
        None => None,
    }
}

/// Warn: a new `let`/`fn` binding introducing a weak, generic identifier
/// name.
pub fn check_weak_name(
    line: &AddedLine,
    stripped: &str,
    name: Option<&str>,
    findings: &mut Findings,
)
    ensures
        final(findings)@ == warned(
            old(findings)@,
            weak_name_finding(line@, stripped@, opt_str(name)),
        ),
{
    if let Some(n) = name {
        let what = join2("weak/generic identifier name ", &quoted(n)).concat(": ");
        findings.warn(describe(line, &what, stripped));
    }
}

/// The finding for a suppressed lint.
pub open spec fn suppression_finding(
    line: AddedView,
    stripped: Seq<char>,
    matched: bool,
) -> Option<Seq<char>> {
    if matched {
        Some(
            finding_text(
                line,
                "new clippy suppression added, double-check the reason: "@,
                stripped,
            ),
        )
    } else {
        None
    }
}

/// Warn: a new clippy lint suppression attribute.
pub fn check_suppression(line: &AddedLine, stripped: &str, matched: bool, findings: &mut Findings)
    ensures
        final(findings)@ == warned(
            old(findings)@,
            suppression_finding(line@, stripped@, matched),
        ),
{
    if matched {
        findings.warn(
            describe(line, "new clippy suppression added, double-check the reason: ", stripped),
        );
    }
}

// ---------------------------------------------------------------
// Laws
// ---------------------------------------------------------------

/// A doc comment is neither taken for commented-out code nor for narration,
/// whatever it says.
pub proof fn law_doc_comments_are_left_alone(
    line: AddedView,
    stripped: Seq<char>,
    comment: Seq<char>,
    matched: bool,
)
    requires
        is_doc_comment(comment),
    ensures
        code_finding(line, stripped, comment, matched) is None,
        narrating_finding(line, stripped, comment) is None,
{
}

/// A line without a comment has no finding about comments.
pub proof fn law_code_has_no_comment_findings(
    line: AddedView,
    stripped: Seq<char>,
    matched: bool,
)
    requires
        comment_at(line.content) is None,
    ensures
        todo_finding(line, stripped, comment_of(line.content), matched) is None,
        code_finding(line, stripped, comment_of(line.content), matched) is None,
        narrating_finding(line, stripped, comment_of(line.content)) is None,
{
    reveal_strlit("//");
}

/// The comment of a line without double quotes starts at its first two slashes.
pub proof fn law_first_slashes_start_the_comment(content: Seq<char>)
    requires
        !content.contains('"'),
    ensures
        comment_at(content) == slashes_from(content, 0),
{
    lemma_comment_of_plain_line(content, 0);
}

} // verus!
