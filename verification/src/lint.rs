//! Diff-scoped heuristic checks for common low-quality-code patterns that
//! automated compiler lints can't catch structurally.
//!
//! Only lines that a diff adds are looked at. Checks (Block = fails; Warn =
//! printed, does not fail):
//!   - Block: leftover TODO/FIXME/XXX/HACK markers in comments
//!   - Block: commented-out code
//!   - Warn: narrating "what the code does" comments
//!   - Warn: the same numeric/string literal repeated 3+ times without a
//!     named constant
//!   - Warn: weak/generic identifier names introduced by a new let/fn binding
//!   - Warn: new clippy lint suppressions added

pub mod checks;
pub mod diff;
pub mod laws;
pub mod literals;
pub mod patterns;

use vstd::prelude::*;
use crate::lint::checks::{
    blocked, check_commented_out_code, check_narrating_comment, check_suppression,
    check_todo_marker, check_weak_name, code_finding, comment_of, comment_text, narrating_finding,
    no_findings, suppression_finding, todo_finding, warned, weak_name_finding, Findings,
    FindingsView,
};
use crate::lint::diff::{added_views, AddedLine, AddedView};
use crate::lint::laws::{holds_code, holds_marker, law_clean_means_no_marker_and_no_code};
use crate::lint::literals::{
    collect_const_literal_declarations, collect_literal_site, law_recording_a_line, pair_views,
    repeated_literal_warnings, repeated_warnings, sites_distinct, sites_views, with_declarations,
    with_sites, LiteralSites, SitesView,
};
use crate::lint::patterns::{
    captured, captured_all, has_todo_marker, is_const_line, is_suppression, literals_of,
    looks_like_code, matches_in, opens_test_module, opt_texts, weak_name, COMMENTED_CODE_RE,
    CONST_LINE_RE, LIT_RE, SUPPRESSION_RE, TEST_MODULE_RE, TODO_MARKER_RE, WEAK_NAME_RE,
};
use crate::text::{
    begins_with, borrow_text, join2, join3, lines, lines_of, opt_str, opt_text, same_text,
    starts_with, texts, trim, trimmed,
};

verus! {

// ---------------------------------------------------------------
// Tasks
// ---------------------------------------------------------------

/// A developer task.
#[derive(Clone, Debug)]
pub enum Task {
    /// Run the checks of this module.
    LintExtended {
        /// What to diff against, when given.
        base: Option<String>,
    },
}

/// Selects a task by name; the arguments are the task's name and what follows.
///
/// # Errors
///
/// Returns the text of the failure if no task name is given or the name is
/// unknown.
pub fn select_task(args: &Vec<String>) -> (r: Result<Task, String>)
    ensures
        match r {
            Ok(Task::LintExtended { base }) => args@.len() > 0 && args@[0]@ == "lint-extended"@
                && opt_text(base) == if args@.len() > 1 {
                Some(args@[1]@)
            } else {
                None
            },
            Err(message) => if args@.len() == 0 {
                message@ == "usage: cargo xtask <lint-extended> [diff-base]"@
            } else {
                args@[0]@ != "lint-extended"@ && message@ == "unknown xtask task: "@ + args@[0]@
            },
        },
{
    if args.len() == 0 {
        return Err("usage: cargo xtask <lint-extended> [diff-base]".to_owned());
    }
    if !same_text(&args[0], "lint-extended") {
        return Err(join2("unknown xtask task: ", &args[0]));
    }
    let base = if args.len() > 1 {
        Some(args[1].clone())
    } else {
        None
    };
    Ok(Task::LintExtended { base })
}

// ---------------------------------------------------------------
// Test modules
// ---------------------------------------------------------------

/// The position of the first mark from `i` on.
pub open spec fn first_mark(marks: Seq<bool>, i: int) -> Option<int>
    decreases marks.len() - i,
{
    if i < 0 || i >= marks.len() {
        None
    } else if marks[i] {
        Some(i)
    } else {
        first_mark(marks, i + 1)
    }
}

/// The number of the first marked line; beyond every line, if none is marked.
pub open spec fn start_of(marks: Seq<bool>) -> usize {
    match first_mark(marks, 0) {
        Some(i) => (i + 1) as usize,
        None => usize::MAX,
    }
}

/// Computes the number of the first marked line.
pub fn module_start(marks: &Vec<bool>) -> (r: usize)
    ensures
        r == start_of(marks@),
{
    let n = marks.len();
    let mut i: usize = 0;
    while i < n
        invariant
            n == marks@.len(),
            i <= n,
            first_mark(marks@, 0) == first_mark(marks@, i as int),
        decreases n - i,
    {
        if marks[i] {
            return i + 1;
        }
        i += 1;
    }
    usize::MAX
}

/// Which lines of a source open a test module.
pub open spec fn module_marks(source: Seq<char>) -> Seq<bool> {
    Seq::new(
        lines_of(source).len(),
        |i: int| matches_in(TEST_MODULE_RE@, lines_of(source)[i]),
    )
}

/// Return the 1-based line number where the test module of a source starts, or
/// `usize::MAX` if it has no test module (or can't be read).
pub fn test_module_start_line(source: Option<&str>) -> (r: usize)
    ensures
        match opt_str(source) {
            Some(text) => r == start_of(module_marks(text)),
            None => r == usize::MAX,
        },
{
    let text = match source {
        Some(text) => text,
        None => {
            return usize::MAX;
        },
    };
    let all = lines(text);
    let mut marks: Vec<bool> = Vec::new();
    let mut i: usize = 0;
    while i < all.len()
        invariant
            texts(all@) == lines_of(text@),
            i <= all@.len(),
            marks@.len() == i,
            forall|k: int| 0 <= k < i ==> #[trigger] marks@[k] == module_marks(text@)[k],
        decreases all.len() - i,
    {
        assert(lines_of(text@)[i as int] == all@[i as int]@);
        marks.push(opens_test_module(&all[i]));
        i += 1;
    }
    assert(marks@ =~= module_marks(text@));
    module_start(&marks)
}

// ---------------------------------------------------------------
// Scanning
// ---------------------------------------------------------------

/// What the patterns found in an added line.
#[derive(Debug)]
pub struct LineMatches {
    /// The comment holds a leftover marker.
    pub todo: bool,
    /// The comment looks like code.
    pub code: bool,
    /// The weak name that the line introduces.
    pub weak: Option<String>,
    /// The line suppresses a clippy lint.
    pub suppression: bool,
    /// The line declares a constant.
    pub const_line: bool,
    /// The literals of the line, match by match.
    pub literals: Vec<Option<String>>,
}

/// What the patterns found, as contracts speak of it.
pub struct MatchesView {
    /// The comment holds a leftover marker.
    pub todo: bool,
    /// The comment looks like code.
    pub code: bool,
    /// The weak name that the line introduces.
    pub weak: Option<Seq<char>>,
    /// The line suppresses a clippy lint.
    pub suppression: bool,
    /// The line declares a constant.
    pub const_line: bool,
    /// The literals of the line, match by match.
    pub literals: Seq<Option<Seq<char>>>,
}

impl LineMatches {
    /// What the patterns found.
    pub open spec fn view(&self) -> MatchesView {
        MatchesView {
            todo: self.todo,
            code: self.code,
            weak: opt_text(self.weak),
            suppression: self.suppression,
            const_line: self.const_line,
            literals: opt_texts(self.literals@),
        }
    }
}

/// What the patterns find in a line.
pub open spec fn matches_of(line: AddedView) -> MatchesView {
    let stripped = trim(line.content);
    let comment = comment_of(line.content);
    MatchesView {
        todo: matches_in(TODO_MARKER_RE@, comment),
        code: matches_in(COMMENTED_CODE_RE@, comment),
        weak: captured(WEAK_NAME_RE@, stripped, 2),
        suppression: matches_in(SUPPRESSION_RE@, stripped),
        const_line: matches_in(CONST_LINE_RE@, stripped),
        literals: captured_all(LIT_RE@, stripped, 1),
    }
}

/// Searches an added line for every pattern.
pub fn match_line(line: &AddedLine) -> (r: LineMatches)
    ensures
        r@ == matches_of(line@),
{
    let stripped = trimmed(&line.content);
    let comment = comment_text(&line.content);
    LineMatches {
        todo: has_todo_marker(&comment),
        code: looks_like_code(&comment),
        weak: weak_name(stripped),
        suppression: is_suppression(stripped),
        const_line: is_const_line(stripped),
        literals: literals_of(stripped),
    }
}

/// What a scan has collected so far.
#[derive(Debug)]
pub struct Scan {
    /// Findings on single lines.
    pub findings: Findings,
    /// Occurrences of literals.
    pub literal_sites: Vec<LiteralSites>,
    /// Files and the literals that constants are declared with.
    pub const_declared: Vec<(String, String)>,
}

/// What a scan has collected, as contracts speak of it.
pub struct ScanView {
    /// Findings on single lines.
    pub findings: FindingsView,
    /// Occurrences of literals.
    pub sites: Seq<SitesView>,
    /// Files and the literals that constants are declared with.
    pub declared: Seq<(Seq<char>, Seq<char>)>,
}

impl Scan {
    /// What was collected.
    pub open spec fn view(&self) -> ScanView {
        ScanView {
            findings: self.findings@,
            sites: sites_views(self.literal_sites@),
            declared: pair_views(self.const_declared@),
        }
    }

    /// A scan of no lines.
    pub fn new() -> (r: Self)
        ensures
            r@ == empty_scan(),
    {
        let r = Scan {
            findings: Findings::new(),
            literal_sites: Vec::new(),
            const_declared: Vec::new(),
        };
        assert(sites_views(r.literal_sites@) =~= Seq::empty());
        assert(pair_views(r.const_declared@) =~= Seq::empty());
        r
    }
}

/// A scan of no lines.
pub open spec fn empty_scan() -> ScanView {
    ScanView { findings: no_findings(), sites: Seq::empty(), declared: Seq::empty() }
}

/// The findings after one more line.
pub open spec fn findings_after(
    f: FindingsView,
    line: AddedView,
    m: MatchesView,
) -> FindingsView {
    let stripped = trim(line.content);
    let comment = comment_of(line.content);
    warned(
        warned(
            warned(
                blocked(
                    blocked(f, todo_finding(line, stripped, comment, m.todo)),
                    code_finding(line, stripped, comment, m.code),
                ),
                narrating_finding(line, stripped, comment),
            ),
            weak_name_finding(line, stripped, m.weak),
        ),
        suppression_finding(line, stripped, m.suppression),
    )
}

/// True when the literals of a line are counted: it stands before the test
/// module and is no attribute, outer or inner.
pub open spec fn counts_literals(line: AddedView, test_start: usize) -> bool {
    line.lineno < test_start && !begins_with(trim(line.content), "#["@) && !begins_with(
        trim(line.content),
        "#!["@,
    )
}

/// The scan after one more line, given what the patterns found in it and where
/// the test module of its file starts.
pub open spec fn scan_next(
    scan: ScanView,
    line: AddedView,
    m: MatchesView,
    test_start: usize,
) -> ScanView {
    ScanView {
        findings: findings_after(scan.findings, line, m),
        sites: if counts_literals(line, test_start) {
            with_sites(
                scan.sites,
                line.file,
                (trim(line.content), line.lineno as usize),
                m.literals,
                m.literals.len() as int,
            )
        } else {
            scan.sites
        },
        declared: with_declarations(scan.declared, line.file, m.const_line, m.literals),
    }
}

/// Run every per-line check against one added line, given what the patterns
/// found in it, accumulating findings and the state needed for the cross-line
/// repeated-literal check.
pub fn scan_matched_line(line: &AddedLine, m: &LineMatches, test_start: usize, scan: &mut Scan)
    ensures
        final(scan)@ == scan_next(old(scan)@, line@, m@, test_start),
{
    let stripped = trimmed(&line.content);
    let comment = comment_text(&line.content);
    check_todo_marker(line, stripped, &comment, m.todo, &mut scan.findings);
    check_commented_out_code(line, stripped, &comment, m.code, &mut scan.findings);
    check_narrating_comment(line, stripped, &comment, &mut scan.findings);
    check_weak_name(line, stripped, borrow_text(&m.weak), &mut scan.findings);
    check_suppression(line, stripped, m.suppression, &mut scan.findings);
    collect_const_literal_declarations(
        &line.file,
        m.const_line,
        &m.literals,
        &mut scan.const_declared,
    );
    if line.lineno < test_start && !starts_with(stripped, "#[") && !starts_with(
        stripped,
        "#![",
    ) {
        collect_literal_site(
            &line.file,
            line.lineno,
            stripped,
            &m.literals,
            &mut scan.literal_sites,
        );
    }
}

/// Run every per-line check against one added line.
pub fn scan_added_line(line: &AddedLine, test_start: usize, scan: &mut Scan)
    ensures
        final(scan)@ == scan_next(old(scan)@, line@, matches_of(line@), test_start),
{
    let m = match_line(line);
    scan_matched_line(line, &m, test_start, scan)
}

// ---------------------------------------------------------------
// Reporting
// ---------------------------------------------------------------

/// Lines to print, and whether the check passes.
#[derive(Debug)]
pub struct Report {
    /// Lines for the standard output.
    pub stdout: Vec<String>,
    /// Lines for the standard error output.
    pub stderr: Vec<String>,
    /// Whether the check passes.
    pub clean: bool,
}

/// Report that the diff had no added Rust lines, so there was nothing to
/// check.
pub fn report_no_added_lines(diff_base: &str) -> (r: String)
    ensures
        r@ == "[extended-lint] no added Rust lines vs "@ + diff_base@ + "; nothing to check."@,
{
    join3("[extended-lint] no added Rust lines vs ", diff_base, "; nothing to check.")
}

/// The findings as list items.
pub open spec fn listed(findings: Seq<Seq<char>>) -> Seq<Seq<char>> {
    Seq::new(findings.len(), |i: int| "  - "@ + findings[i])
}

/// What is printed of the findings.
pub open spec fn report_lines(f: FindingsView) -> Seq<Seq<char>> {
    let warnings = if f.warnings.len() > 0 {
        seq!["[extended-lint] warnings (review, does not block):"@] + listed(f.warnings) + seq![""@]
    } else {
        Seq::empty()
    };
    let blocking = if f.blocking.len() > 0 {
        seq!["[extended-lint] BLOCKING findings:"@] + listed(f.blocking) + seq![
            ""@,
            "[extended-lint] fix the above, or if a match is a false positive, note why in the PR description."@,
        ]
    } else {
        seq!["[extended-lint] no blocking findings."@]
    };
    warnings + blocking
}

fn push_items(out: &mut Vec<String>, items: &Vec<String>)
    ensures
        texts(final(out)@) == texts(old(out)@) + listed(texts(items@)),
{
    let ghost before = texts(out@);
    let ghost all = listed(texts(items@));
    let mut i: usize = 0;
    assert(texts(out@) =~= before + all.take(0));
    while i < items.len()
        invariant
            all == listed(texts(items@)),
            i <= items@.len(),
            texts(out@) == before + all.take(i as int),
        decreases items.len() - i,
    {
        let ghost so_far = out@;
        let item = join2("  - ", &items[i]);
        assert(texts(items@)[i as int] == items@[i as int]@);
        assert(item@ == all[i as int]);
        out.push(item);
        assert(texts(out@) =~= texts(so_far).push(item@));
        i += 1;
        assert(texts(out@) =~= before + all.take(i as int));
    }
    assert(all.take(i as int) =~= all);
}

/// Render collected findings. The check passes if there are no blocking
/// findings.
pub fn report_findings(findings: &Findings) -> (r: Report)
    ensures
        texts(r.stderr@) == report_lines(findings@),
        r.stdout@.len() == 0,
        r.clean == (findings@.blocking.len() == 0),
{
    let mut out: Vec<String> = Vec::new();
    assert(texts(out@) =~= Seq::empty());
    if findings.warnings.len() > 0 {
        out.push("[extended-lint] warnings (review, does not block):".to_owned());
        assert(texts(out@) =~= seq!["[extended-lint] warnings (review, does not block):"@]);
        push_items(&mut out, &findings.warnings);
        let ghost so_far = out@;
        out.push("".to_owned());
        assert(texts(out@) =~= texts(so_far) + seq![""@]);
    }
    let ghost warnings = texts(out@);
    if findings.blocking.len() > 0 {
        out.push("[extended-lint] BLOCKING findings:".to_owned());
        assert(texts(out@) =~= warnings + seq!["[extended-lint] BLOCKING findings:"@]);
        push_items(&mut out, &findings.blocking);
        let ghost so_far = out@;
        out.push("".to_owned());
        out.push(
            "[extended-lint] fix the above, or if a match is a false positive, note why in the PR description.".to_owned(),
        );
        assert(texts(out@) =~= texts(so_far) + seq![
            ""@,
            "[extended-lint] fix the above, or if a match is a false positive, note why in the PR description."@,
        ]);
        assert(texts(out@) =~= report_lines(findings@));
        return Report { stdout: Vec::new(), stderr: out, clean: false };
    }
    out.push("[extended-lint] no blocking findings.".to_owned());
    assert(texts(out@) =~= warnings + seq!["[extended-lint] no blocking findings."@]);
    assert(texts(out@) =~= report_lines(findings@));
    Report { stdout: Vec::new(), stderr: out, clean: true }
}

// ---------------------------------------------------------------
// The whole check
// ---------------------------------------------------------------

/// The scan of the first `n` lines.
pub open spec fn scan_of(
    added: Seq<AddedView>,
    found: Seq<MatchesView>,
    starts: Seq<usize>,
    n: int,
) -> ScanView
    decreases n,
{
    if n <= 0 {
        empty_scan()
    } else {
        scan_next(scan_of(added, found, starts, n - 1), added[n - 1], found[n - 1], starts[n - 1])
    }
}

/// Every finding on the added lines: those on single lines, then those on
/// repeated literals.
pub open spec fn all_findings(
    added: Seq<AddedView>,
    found: Seq<MatchesView>,
    starts: Seq<usize>,
) -> FindingsView {
    let scan = scan_of(added, found, starts, added.len() as int);
    FindingsView {
        blocking: scan.findings.blocking,
        warnings: scan.findings.warnings + repeated_warnings(
            scan.sites,
            scan.declared,
            scan.sites.len() as int,
        ),
    }
}

/// What the patterns found in each line.
pub open spec fn matches_views(v: Seq<LineMatches>) -> Seq<MatchesView> {
    Seq::new(v.len(), |i: int| v[i]@)
}

/// What the patterns find in each line.
pub open spec fn matches_of_all(added: Seq<AddedView>) -> Seq<MatchesView> {
    Seq::new(added.len(), |i: int| matches_of(added[i]))
}

/// True when a report is that of the check on the given lines.
pub open spec fn reports_on(
    r: Report,
    diff_base: Seq<char>,
    added: Seq<AddedView>,
    found: Seq<MatchesView>,
    starts: Seq<usize>,
) -> bool {
    if added.len() == 0 {
        &&& r.clean
        &&& texts(r.stdout@) == seq![
            "[extended-lint] no added Rust lines vs "@ + diff_base + "; nothing to check."@,
        ]
        &&& r.stderr@.len() == 0
    } else {
        let f = all_findings(added, found, starts);
        &&& r.clean == (f.blocking.len() == 0)
        &&& r.stdout@.len() == 0
        &&& texts(r.stderr@) == report_lines(f)
    }
}

/// Runs the check on the added lines, given what the patterns found in each
/// and where the test module of its file starts.
pub fn run_matched(
    diff_base: &str,
    added: &Vec<AddedLine>,
    found: &Vec<LineMatches>,
    starts: &Vec<usize>,
) -> (r: Report)
    requires
        found@.len() == added@.len(),
        starts@.len() == added@.len(),
    ensures
        reports_on(r, diff_base@, added_views(added@), matches_views(found@), starts@),
{
    let ghost lines = added_views(added@);
    let ghost m = matches_views(found@);
    if added.len() == 0 {
        let mut stdout: Vec<String> = Vec::new();
        stdout.push(report_no_added_lines(diff_base));
        assert(texts(stdout@) =~= seq![
            "[extended-lint] no added Rust lines vs "@ + diff_base@ + "; nothing to check."@,
        ]);
        return Report { stdout, stderr: Vec::new(), clean: true };
    }
    let mut scan = Scan::new();
    let mut i: usize = 0;
    while i < added.len()
        invariant
            found@.len() == added@.len(),
            starts@.len() == added@.len(),
            lines == added_views(added@),
            m == matches_views(found@),
            i <= added@.len(),
            scan@ == scan_of(lines, m, starts@, i as int),
        decreases added.len() - i,
    {
        assert(lines[i as int] == added@[i as int]@);
        assert(m[i as int] == found@[i as int]@);
        scan_matched_line(&added[i], &found[i], starts[i], &mut scan);
        i += 1;
    }
    let repeated = repeated_literal_warnings(&scan.literal_sites, &scan.const_declared);
    let ghost collected = scan@;
    let mut findings = scan.findings;
    let mut j: usize = 0;
    assert(texts(repeated@).take(0) =~= Seq::empty());
    assert(findings@.warnings =~= collected.findings.warnings + texts(repeated@).take(0));
    while j < repeated.len()
        invariant
            j <= repeated@.len(),
            findings@ == (FindingsView {
                blocking: collected.findings.blocking,
                warnings: collected.findings.warnings + texts(repeated@).take(j as int),
            }),
        decreases repeated.len() - j,
    {
        assert(texts(repeated@)[j as int] == repeated@[j as int]@);
        findings.warn(repeated[j].clone());
        j += 1;
        assert(findings@.warnings =~= collected.findings.warnings + texts(repeated@).take(
            j as int,
        ));
    }
    assert(texts(repeated@).take(j as int) =~= texts(repeated@));
    report_findings(&findings)
}

/// Runs the check on the added lines, given where the test module of the file
/// of each starts.
pub fn run(diff_base: &str, added: &Vec<AddedLine>, starts: &Vec<usize>) -> (r: Report)
    requires
        starts@.len() == added@.len(),
    ensures
        reports_on(
            r,
            diff_base@,
            added_views(added@),
            matches_of_all(added_views(added@)),
            starts@,
        ),
        r.clean <==> forall|i: int|
            0 <= i < added@.len() ==> !holds_marker((#[trigger] added@[i])@) && !holds_code(
                added@[i]@,
            ),
{
    let mut found: Vec<LineMatches> = Vec::new();
    let mut i: usize = 0;
    while i < added.len()
        invariant
            i <= added@.len(),
            found@.len() == i,
            forall|k: int| 0 <= k < i ==> (#[trigger] found@[k])@ == matches_of(added@[k]@),
        decreases added.len() - i,
    {
        found.push(match_line(&added[i]));
        i += 1;
    }
    assert(matches_views(found@) =~= matches_of_all(added_views(added@)));
    let report = run_matched(diff_base, added, &found, starts);
    proof {
        let views = added_views(added@);
        law_clean_means_no_marker_and_no_code(report, diff_base@, views, starts@);
        if report.clean {
            assert forall|i: int| 0 <= i < added@.len() implies !holds_marker(
                (#[trigger] added@[i])@,
            ) && !holds_code(added@[i]@) by {
                assert(views[i] == added@[i]@);
            }
        } else {
            let i = choose|i: int|
                0 <= i < views.len() && (holds_marker(#[trigger] views[i]) || holds_code(views[i]));
            assert(added@[i]@ == views[i]);
        }
    }
    report
}

// ---------------------------------------------------------------
// Laws
// ---------------------------------------------------------------

/// Warnings alone never fail the check: it passes exactly when no added line
/// holds a leftover marker or commented-out code.
pub proof fn law_only_blocking_findings_fail(
    added: Seq<AddedView>,
    found: Seq<MatchesView>,
    starts: Seq<usize>,
    n: int,
)
    requires
        0 <= n <= added.len(),
    ensures
        scan_of(added, found, starts, n).findings.blocking.len() == 0 <==> forall|i: int|
            0 <= i < n ==> {
                let line = #[trigger] added[i];
                let stripped = trim(line.content);
                let comment = comment_of(line.content);
                &&& todo_finding(line, stripped, comment, found[i].todo) is None
                &&& code_finding(line, stripped, comment, found[i].code) is None
            },
    decreases n,
{
    if n > 0 {
        law_only_blocking_findings_fail(added, found, starts, n - 1);
        let line = added[n - 1];
        let stripped = trim(line.content);
        let comment = comment_of(line.content);
        let before = scan_of(added, found, starts, n - 1).findings;
        let after = scan_of(added, found, starts, n).findings;
        if todo_finding(line, stripped, comment, found[n - 1].todo) is None && code_finding(
            line,
            stripped,
            comment,
            found[n - 1].code,
        ) is None {
            assert(after.blocking == before.blocking);
        } else {
            assert(after.blocking.len() > 0);
        }
    }
}

/// However many lines are scanned, the occurrences of each literal of each file
/// are kept in one place, so that a literal is reported once.
pub proof fn law_literals_are_kept_together(
    added: Seq<AddedView>,
    found: Seq<MatchesView>,
    starts: Seq<usize>,
    n: int,
)
    requires
        0 <= n <= added.len(),
    ensures
        sites_distinct(scan_of(added, found, starts, n).sites),
    decreases n,
{
    if n > 0 {
        law_literals_are_kept_together(added, found, starts, n - 1);
        let before = scan_of(added, found, starts, n - 1);
        let literals = found[n - 1].literals;
        law_recording_a_line(
            before.sites,
            added[n - 1].file,
            (trim(added[n - 1].content), added[n - 1].lineno as usize),
            literals,
            literals.len() as int,
        );
    }
}

} // verus!
