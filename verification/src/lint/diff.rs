//! The lines that a unified diff adds.

use vstd::prelude::*;
use vstd::string::*;
use crate::lint::patterns::{captured, hunk_start, opt_texts, HUNK_HEADER_RE};
use crate::numeral::{parse_unsigned, unsigned_value};
use crate::text::{
    after_prefix, begins_with, borrow_text, join2, lines, lines_of, opt_str, opt_text, starts_with,
    strip_prefix, texts,
};

verus! {

// ---------------------------------------------------------------
// Base of the diff
// ---------------------------------------------------------------

/// What a diff is made against: an explicit argument, else the configured
/// base, else the base branch of the pull request, else the main branch. Outside
/// a pull request the base branch is unset or empty.
pub open spec fn diff_base_of(
    cli_arg: Option<Seq<char>>,
    configured: Option<Seq<char>>,
    base_ref: Option<Seq<char>>,
) -> Seq<char> {
    match cli_arg {
        Some(base) => base,
        None => match configured {
            Some(base) => base,
            None => match base_ref {
                Some(branch) => if branch.len() > 0 {
                    "origin/"@ + branch
                } else {
                    "origin/main"@
                },
                None => "origin/main"@,
            },
        },
    }
}

/// Resolve the diff base to compare against, in priority order: an explicit
/// CLI argument, the value of `EXTENDED_LINT_BASE`, the GitHub Actions PR
/// base branch in `GITHUB_BASE_REF`, or `origin/main`.
pub fn resolve_diff_base(
    cli_arg: Option<&str>,
    configured: Option<&str>,
    base_ref: Option<&str>,
) -> (r: String)
    ensures
        r@ == diff_base_of(opt_str(cli_arg), opt_str(configured), opt_str(base_ref)),
{
    if let Some(base) = cli_arg {
        return base.to_owned();
    }
    if let Some(base) = configured {
        return base.to_owned();
    }
    if let Some(branch) = base_ref {
        if branch.unicode_len() > 0 {
            return join2("origin/", branch);
        }
    }
    "origin/main".to_owned()
}

// ---------------------------------------------------------------
// Model
// ---------------------------------------------------------------

/// A single line added (or changed) by the diff, relative to the diff base.
#[derive(Clone, Debug)]
pub struct AddedLine {
    /// Path of the file the line belongs to, relative to the repo root.
    pub file: String,
    /// 1-based line number of this line in the *new* version of the file.
    pub lineno: usize,
    /// The line's content, with the leading diff `+` marker stripped.
    pub content: String,
}

/// An added line as contracts speak of it.
pub struct AddedView {
    /// Path of the file.
    pub file: Seq<char>,
    /// Line number in the new version of the file.
    pub lineno: nat,
    /// Content without the marker.
    pub content: Seq<char>,
}

impl AddedLine {
    /// The line's file, number and content.
    pub open spec fn view(&self) -> AddedView {
        AddedView { file: self.file@, lineno: self.lineno as nat, content: self.content@ }
    }
}

/// The added lines of a list.
pub open spec fn added_views(v: Seq<AddedLine>) -> Seq<AddedView> {
    Seq::new(v.len(), |i: int| v[i]@)
}

/// What a line of a diff is.
pub enum DiffLine {
    /// Names the new version of a file.
    File(Seq<char>),
    /// Opens a hunk at a line of the new version.
    Hunk(nat),
    /// Another file marker.
    Marker,
    /// A line that only the new version has.
    Added(Seq<char>),
    /// A line that only the old version has.
    Removed,
    /// A line of both versions.
    Common,
    /// A note on the line before it: no newline ends the file.
    Note,
    /// Begins the part on another file.
    Begin,
}

/// The number that a hunk header holds, zero if it is none that fits.
pub open spec fn header_number(header: Seq<char>) -> nat {
    match unsigned_value(header, usize::MAX as nat) {
        Some(n) => n,
        None => 0,
    }
}

/// What a line inside a hunk is, given the number in it if it is a hunk header.
/// The first character tells added, removed and common lines apart, whatever
/// their content looks like.
pub open spec fn hunk_line(line: Seq<char>, header: Option<Seq<char>>) -> DiffLine {
    match after_prefix(line, "+"@) {
        Some(content) => DiffLine::Added(content),
        None => if begins_with(line, "-"@) {
            DiffLine::Removed
        } else if begins_with(line, "\\"@) {
            DiffLine::Note
        } else if begins_with(line, "diff --git "@) {
            DiffLine::Begin
        } else {
            match header {
                Some(number) => DiffLine::Hunk(header_number(number)),
                None => DiffLine::Common,
            }
        },
    }
}

/// What a line outside the hunks is, given the number in it if it is a hunk
/// header.
pub open spec fn outer_line(line: Seq<char>, header: Option<Seq<char>>) -> DiffLine {
    match after_prefix(line, "+++ b/"@) {
        Some(path) => DiffLine::File(path),
        None => if begins_with(line, "+++"@) || begins_with(line, "---"@) {
            DiffLine::Marker
        } else {
            hunk_line(line, header)
        },
    }
}

/// What a line of a diff is, given whether it stands inside a hunk and the
/// number in it if it is a hunk header.
pub open spec fn diff_line(
    line: Seq<char>,
    header: Option<Seq<char>>,
    in_hunk: bool,
) -> DiffLine {
    if in_hunk {
        hunk_line(line, header)
    } else {
        outer_line(line, header)
    }
}

/// Where a reader of a diff is: the file, the number of its next line, whether
/// it is inside a hunk, and the added lines so far.
pub struct DiffPoint {
    /// File that the hunks belong to.
    pub file: Seq<char>,
    /// Number of the next line of the new version.
    pub lineno: nat,
    /// Whether the reader is inside a hunk.
    pub in_hunk: bool,
    /// Added lines so far.
    pub added: Seq<AddedView>,
}

/// Where a reader starts.
pub open spec fn diff_start() -> DiffPoint {
    DiffPoint { file: Seq::empty(), lineno: 0, in_hunk: false, added: Seq::empty() }
}

/// Where a reader is after one more line.
pub open spec fn diff_next(point: DiffPoint, line: DiffLine) -> DiffPoint {
    match line {
        DiffLine::File(path) => DiffPoint { file: path, ..point },
        DiffLine::Hunk(number) => DiffPoint { lineno: number, in_hunk: true, ..point },
        DiffLine::Begin => DiffPoint { in_hunk: false, ..point },
        DiffLine::Marker => point,
        DiffLine::Note => point,
        DiffLine::Removed => point,
        DiffLine::Common => DiffPoint { lineno: point.lineno + 1, ..point },
        DiffLine::Added(content) => DiffPoint {
            lineno: point.lineno + 1,
            added: point.added.push(
                AddedView { file: point.file, lineno: point.lineno, content },
            ),
            ..point
        },
    }
}

/// Where a reader is after reading a line.
pub open spec fn diff_read(
    point: DiffPoint,
    line: Seq<char>,
    header: Option<Seq<char>>,
) -> DiffPoint {
    diff_next(point, diff_line(line, header, point.in_hunk))
}

/// Where a reader is after the first `n` lines.
pub open spec fn diff_after(
    lines: Seq<Seq<char>>,
    headers: Seq<Option<Seq<char>>>,
    n: int,
) -> DiffPoint
    decreases n,
{
    if n <= 0 {
        diff_start()
    } else {
        diff_read(diff_after(lines, headers, n - 1), lines[n - 1], headers[n - 1])
    }
}

/// What line `i` of a diff is.
pub open spec fn line_at(
    lines: Seq<Seq<char>>,
    headers: Seq<Option<Seq<char>>>,
    i: int,
) -> DiffLine {
    diff_line(lines[i], headers[i], diff_after(lines, headers, i).in_hunk)
}

/// True when every line number of the new versions is a machine integer.
pub open spec fn numbers_fit(
    lines: Seq<Seq<char>>,
    headers: Seq<Option<Seq<char>>>,
) -> bool {
    forall|n: int|
        0 <= n <= lines.len() ==> (#[trigger] diff_after(lines, headers, n)).lineno <= usize::MAX
}

/// The lines that a diff adds.
pub open spec fn added_by(
    lines: Seq<Seq<char>>,
    headers: Seq<Option<Seq<char>>>,
) -> Seq<AddedView> {
    diff_after(lines, headers, lines.len() as int).added
}

/// The numbers in the hunk headers among the lines.
pub open spec fn headers_of(lines: Seq<Seq<char>>) -> Seq<Option<Seq<char>>> {
    Seq::new(lines.len(), |i: int| captured(HUNK_HEADER_RE@, lines[i], 1))
}

// ---------------------------------------------------------------
// Laws
// ---------------------------------------------------------------

proof fn lemma_added_comes_from_diff(
    lines: Seq<Seq<char>>,
    headers: Seq<Option<Seq<char>>>,
    n: int,
    k: int,
)
    requires
        0 <= n <= lines.len(),
        0 <= k < diff_after(lines, headers, n).added.len(),
    ensures
        exists|i: int|
            0 <= i < n && #[trigger] line_at(lines, headers, i) == DiffLine::Added(
                diff_after(lines, headers, n).added[k].content,
            ) && diff_after(lines, headers, n).added[k].lineno == diff_after(
                lines,
                headers,
                i,
            ).lineno && diff_after(lines, headers, n).added[k].file == diff_after(
                lines,
                headers,
                i,
            ).file,
    decreases n,
{
    if n > 0 {
        let before = diff_after(lines, headers, n - 1);
        if k < before.added.len() {
            lemma_added_comes_from_diff(lines, headers, n - 1, k);
            assert(diff_after(lines, headers, n).added[k] == before.added[k]);
        } else {
            assert(line_at(lines, headers, n - 1) is Added);
        }
    }
}

/// Every reported line is a line that the diff marks as added, with the file
/// and the number that the diff gives it.
pub proof fn law_reported_lines_are_added_lines(
    lines: Seq<Seq<char>>,
    headers: Seq<Option<Seq<char>>>,
    k: int,
)
    requires
        0 <= k < added_by(lines, headers).len(),
    ensures
        exists|i: int|
            0 <= i < lines.len() && #[trigger] line_at(lines, headers, i) == DiffLine::Added(
                added_by(lines, headers)[k].content,
            ) && added_by(lines, headers)[k].lineno == diff_after(lines, headers, i).lineno
                && added_by(lines, headers)[k].file == diff_after(lines, headers, i).file,
{
    lemma_added_comes_from_diff(lines, headers, lines.len() as int, k);
}

proof fn lemma_added_stay(
    lines: Seq<Seq<char>>,
    headers: Seq<Option<Seq<char>>>,
    i: int,
    n: int,
)
    requires
        0 <= i <= n <= lines.len(),
    ensures
        diff_after(lines, headers, i).added.len() <= diff_after(lines, headers, n).added.len(),
        forall|k: int|
            0 <= k < diff_after(lines, headers, i).added.len() ==> (#[trigger] diff_after(
                lines,
                headers,
                n,
            ).added[k]) == diff_after(lines, headers, i).added[k],
    decreases n - i,
{
    if i < n {
        lemma_added_stay(lines, headers, i, n - 1);
        let before = diff_after(lines, headers, n - 1);
        let after = diff_after(lines, headers, n);
        assert forall|k: int| 0 <= k < diff_after(lines, headers, i).added.len() implies (
        #[trigger] after.added[k]) == diff_after(lines, headers, i).added[k] by {
            assert(after.added[k] == before.added[k]);
        }
    }
}

/// Inside a hunk every line that begins with a plus sign is reported, whatever
/// follows the sign, with the file and the number that the diff gives it.
pub proof fn law_added_lines_are_reported(
    lines: Seq<Seq<char>>,
    headers: Seq<Option<Seq<char>>>,
    i: int,
)
    requires
        0 <= i < lines.len(),
        diff_after(lines, headers, i).in_hunk,
        begins_with(lines[i], "+"@),
    ensures
        added_by(lines, headers).contains(
            AddedView {
                file: diff_after(lines, headers, i).file,
                lineno: diff_after(lines, headers, i).lineno,
                content: lines[i].skip("+"@.len() as int),
            },
        ),
{
    let point = diff_after(lines, headers, i);
    let at = point.added.len() as int;
    lemma_added_stay(lines, headers, i + 1, lines.len() as int);
    assert(diff_after(lines, headers, i + 1).added[at] == AddedView {
        file: point.file,
        lineno: point.lineno,
        content: lines[i].skip("+"@.len() as int),
    });
    assert(added_by(lines, headers)[at] == diff_after(lines, headers, i + 1).added[at]);
}

/// Inside a hunk that removes and adds lines only, the added lines have
/// consecutive numbers from the one in the hunk header on; notes that no
/// newline ends a file do not count.
pub proof fn law_added_lines_are_numbered_consecutively(
    lines: Seq<Seq<char>>,
    headers: Seq<Option<Seq<char>>>,
    from: int,
    to: int,
)
    requires
        0 <= from <= to <= lines.len(),
        forall|i: int|
            from <= i < to ==> (#[trigger] line_at(lines, headers, i) is Added || line_at(
                lines,
                headers,
                i,
            ) is Removed || line_at(lines, headers, i) is Note),
    ensures
        ({
            let before = diff_after(lines, headers, from);
            let after = diff_after(lines, headers, to);
            &&& before.added.len() <= after.added.len()
            &&& after.lineno - before.lineno == after.added.len() - before.added.len()
            &&& forall|k: int|
                before.added.len() <= k < after.added.len() ==> (#[trigger] after.added[k]).lineno
                    == before.lineno + k - before.added.len()
        }),
    decreases to - from,
{
    if from < to {
        law_added_lines_are_numbered_consecutively(lines, headers, from, to - 1);
        assert(line_at(lines, headers, to - 1) is Added || line_at(lines, headers, to - 1)
            is Removed || line_at(lines, headers, to - 1) is Note);
    }
}

// ---------------------------------------------------------------
// Reading
// ---------------------------------------------------------------

/// A reader of a diff.
#[derive(Debug)]
pub struct DiffReader {
    /// File that the hunks belong to.
    pub file: String,
    /// Number of the next line of the new version.
    pub lineno: usize,
    /// Whether the reader is inside a hunk.
    pub in_hunk: bool,
    /// Added lines so far.
    pub added: Vec<AddedLine>,
}

impl DiffReader {
    /// Where the reader is.
    pub open spec fn view(&self) -> DiffPoint {
        DiffPoint {
            file: self.file@,
            lineno: self.lineno as nat,
            in_hunk: self.in_hunk,
            added: added_views(self.added@),
        }
    }

    /// A reader before the first line.
    pub fn new() -> (r: Self)
        ensures
            r@ == diff_start(),
    {
        let r = DiffReader { file: String::new(), lineno: 0, in_hunk: false, added: Vec::new() };
        assert(added_views(r.added@) =~= Seq::empty());
        assert(r.file@ =~= Seq::<char>::empty());
        r
    }

    fn is_marker(&self, line: &str) -> (r: bool)
        ensures
            r == (!self.in_hunk && (begins_with(line@, "+++"@) || begins_with(line@, "---"@))),
    {
        !self.in_hunk && (starts_with(line, "+++") || starts_with(line, "---"))
    }

    /// Reads one more line, given the number in it if it is a hunk header.
    pub fn read(&mut self, line: &str, header: Option<&str>)
        requires
            diff_read(old(self)@, line@, opt_str(header)).lineno <= usize::MAX,
        ensures
            final(self)@ == diff_read(old(self)@, line@, opt_str(header)),
    {
        if !self.in_hunk {
            if let Some(path) = strip_prefix(line, "+++ b/") {
                self.file = path.to_owned();
                return;
            }
        }
        if self.is_marker(line) {
            return;
        }
        if let Some(content) = strip_prefix(line, "+") {
            let ghost before = self.added@;
            let entry = AddedLine {
                file: self.file.clone(),
                lineno: self.lineno,
                content: content.to_owned(),
            };
            let ghost seen = entry@;
            self.added.push(entry);
            assert(added_views(self.added@) =~= added_views(before).push(seen));
            self.lineno = self.lineno + 1;
            return;
        }
        if starts_with(line, "-") || starts_with(line, "\\") {
            return;
        }
        if starts_with(line, "diff --git ") {
            self.in_hunk = false;
            return;
        }
        if let Some(number) = header {
            self.in_hunk = true;
            self.lineno = match parse_unsigned(number, usize::MAX as u64) {
                Some(n) => n as usize,
                None => 0,
            };
            return;
        }
        self.lineno = self.lineno + 1;
    }

    /// True when reading one more line keeps the line number a machine integer.
    pub fn can_read(&self, line: &str, header: Option<&str>) -> (r: bool)
        ensures
            r == (diff_read(self@, line@, opt_str(header)).lineno <= usize::MAX),
    {
        if self.lineno < usize::MAX {
            return true;
        }
        if !self.in_hunk && strip_prefix(line, "+++ b/").is_some() {
            return true;
        }
        if self.is_marker(line) {
            return true;
        }
        !starts_with(line, "+") && (starts_with(line, "-") || starts_with(line, "\\")
            || starts_with(line, "diff --git ") || header.is_some())
    }
}

/// Collects the lines that a diff adds, given the numbers in its hunk headers;
/// nothing, when a line number does not fit a machine integer.
pub fn added_lines(lines: &Vec<String>, headers: &Vec<Option<String>>) -> (r: Option<
    Vec<AddedLine>,
>)
    requires
        headers@.len() == lines@.len(),
    ensures
        match r {
            Some(added) => numbers_fit(texts(lines@), opt_texts(headers@)) && added_views(added@)
                == added_by(texts(lines@), opt_texts(headers@)),
            None => !numbers_fit(texts(lines@), opt_texts(headers@)),
        },
{
    let ghost all = texts(lines@);
    let ghost numbers = opt_texts(headers@);
    let mut reader = DiffReader::new();
    let mut i: usize = 0;
    while i < lines.len()
        invariant
            headers@.len() == lines@.len(),
            all == texts(lines@),
            numbers == opt_texts(headers@),
            i <= lines@.len(),
            reader@ == diff_after(all, numbers, i as int),
            forall|n: int|
                0 <= n <= i ==> (#[trigger] diff_after(all, numbers, n)).lineno <= usize::MAX,
        decreases lines.len() - i,
    {
        let header = borrow_text(&headers[i]);
        assert(all[i as int] == lines@[i as int]@);
        assert(numbers[i as int] == opt_str(header));
        assert(diff_after(all, numbers, i + 1) == diff_read(
            reader@,
            all[i as int],
            numbers[i as int],
        ));
        if !reader.can_read(&lines[i], header) {
            return None;
        }
        reader.read(&lines[i], header);
        i += 1;
    }
    Some(reader.added)
}

/// Collects the lines that the output of `git diff` adds; nothing, when a line
/// number in it does not fit a machine integer.
pub fn run_diff(output: &str) -> (r: Option<Vec<AddedLine>>)
    ensures
        match r {
            Some(added) => numbers_fit(lines_of(output@), headers_of(lines_of(output@)))
                && added_views(added@) == added_by(
                lines_of(output@),
                headers_of(lines_of(output@)),
            ),
            None => !numbers_fit(lines_of(output@), headers_of(lines_of(output@))),
        },
{
    let lines = lines(output);
    let mut headers: Vec<Option<String>> = Vec::new();
    let mut i: usize = 0;
    while i < lines.len()
        invariant
            texts(lines@) == lines_of(output@),
            i <= lines@.len(),
            headers@.len() == i,
            forall|k: int|
                0 <= k < i ==> opt_text(#[trigger] headers@[k]) == headers_of(lines_of(output@))[k],
        decreases lines.len() - i,
    {
        assert(lines_of(output@)[i as int] == lines@[i as int]@);
        headers.push(hunk_start(&lines[i]));
        i += 1;
    }
    assert(opt_texts(headers@) =~= headers_of(lines_of(output@)));
    added_lines(&lines, &headers)
}

} // verus!
