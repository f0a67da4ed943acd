use forge::lint::checks::{check_narrating_comment, comment_text, is_narrating, Findings};
use forge::lint::diff::{added_lines, resolve_diff_base, run_diff, AddedLine};
use forge::lint::literals::{collect_literal_site, repeated_literal_warnings, LiteralSites};
use forge::lint::patterns::{
    has_todo_marker, hunk_start, is_const_line, is_suppression, literals_of, looks_like_code, opens_test_module,
    weak_name,
};
use forge::lint::{
    match_line, module_start, report_findings, run, run_matched, scan_added_line, select_task,
    test_module_start_line, LineMatches, Scan, Task,
};

fn line(file: &str, lineno: usize, content: &str) -> AddedLine {
    AddedLine { file: file.to_owned(), lineno, content: content.to_owned() }
}

fn texts(lines: &[&str]) -> Vec<String> {
    lines.iter().map(|l| (*l).to_owned()).collect()
}

#[test]
fn detects_todo_marker() {
    assert!(
        has_todo_marker("// TODO: fix this later"),
        "should flag a TODO marker in a comment"
    );
    assert!(!has_todo_marker("// this is fine"), "should not flag an ordinary comment");
}

#[test]
fn detects_commented_out_code_but_not_doc_comments() {
    assert!(
        looks_like_code("// let x = compute();"),
        "should flag a commented-out let statement"
    );
    assert!(
        !looks_like_code("/// Returns the computed value."),
        "should not flag a doc comment"
    );
}

#[test]
fn detects_weak_names() {
    let name = weak_name("let temp = 5;");
    assert_eq!(name.as_deref(), Some("temp"), "should capture the weak name 'temp'");
    assert!(weak_name("let value = 5;").is_none(), "should not flag a descriptive name");
}

#[test]
fn detects_narrating_comment_openers() {
    assert!(
        is_narrating("increment the counter by one"),
        "should recognize a narrating opener"
    );
    assert!(
        !is_narrating("guards against a torn write"),
        "should not misfire on a 'why'-style comment"
    );
}

#[test]
fn every_narrating_opener_is_recognized() {
    for opener in [
        "increment", "decrement", "loop through", "iterate over", "iterate through", "return the", "returns the",
        "create a", "creates a", "initialize", "set the", "sets the", "get the", "gets the", "parse the",
        "parses the", "convert ", "converts ", "check if", "checks if", "validate that", "validates that", "call ",
        "calls ", "define ", "defines ", "import ", "imports ", "declare ", "declares ", "instantiate", "loop over",
        "append ", "appends ", "remove ", "removes ", "add ", "adds ",
    ] {
        assert!(is_narrating(&format!("{opener}xyz")), "{opener:?}");
    }
    assert!(!is_narrating("addition"));
}

#[test]
fn patterns_find_what_they_name() {
    assert!(is_suppression("#[allow(clippy::unwrap_used)]"));
    assert!(is_suppression("#[expect(clippy::unwrap_used)]"));
    assert!(!is_suppression("#[allow(dead_code)]"));
    assert!(is_const_line("const LIMIT: u32 = 100;"));
    assert!(!is_const_line("let limit = 100;"));
    assert!(opens_test_module("#[cfg(test)]"));
    assert!(opens_test_module("mod tests {"));
    assert!(!opens_test_module("    mod tests {"));
    assert_eq!(hunk_start("@@ -3,2 +17,4 @@ fn x()").as_deref(), Some("17"));
    assert_eq!(hunk_start("@@ -3 +9 @@").as_deref(), Some("9"));
    assert_eq!(hunk_start("+let x = 1;"), None);
    let found: Vec<Option<String>> = literals_of("f(4096, \"abcd\", 7)");
    assert_eq!(found, vec![Some("4096".to_owned()), Some("\"abcd\"".to_owned())]);
    let every: Vec<String> = literals_of("[10,20,30]").into_iter().flatten().collect();
    assert_eq!(every, vec!["10", "20", "30"]);
    assert!(literals_of("x10 1.50 10x \"abc\" \"abcd\"x").is_empty());
}

#[test]
fn diff_base_is_resolved_by_priority() {
    assert_eq!(resolve_diff_base(Some("a"), Some("b"), Some("c")), "a");
    assert_eq!(resolve_diff_base(None, Some("b"), Some("c")), "b");
    assert_eq!(resolve_diff_base(None, None, Some("c")), "origin/c");
    assert_eq!(resolve_diff_base(None, None, None), "origin/main");
    assert_eq!(resolve_diff_base(None, None, Some("")), "origin/main");
}

#[test]
fn added_lines_carry_file_and_number() {
    let diff = "diff --git a/x.rs b/x.rs\n--- a/x.rs\n+++ b/x.rs\n@@ -1,2 +10,3 @@\n-old\n+new one\n+new two\n \
                common\n+after\n@@ -9 +40 @@\n+last\n";
    let added = run_diff(diff).unwrap();
    let seen: Vec<(&str, usize, &str)> =
        added.iter().map(|l| (l.file.as_str(), l.lineno, l.content.as_str())).collect();
    assert_eq!(
        seen,
        vec![
            ("x.rs", 10, "new one"),
            ("x.rs", 11, "new two"),
            ("x.rs", 13, "after"),
            ("x.rs", 40, "last"),
        ]
    );
}

#[test]
fn deleted_file_marker_is_no_added_line() {
    let diff = "--- a/x.rs\n+++ /dev/null\n@@ -1 +0,0 @@\n-gone\n";
    assert!(run_diff(diff).unwrap().is_empty());
}

fn collected(diff: &str) -> Vec<(String, usize, String)> {
    run_diff(diff).unwrap().into_iter().map(|l| (l.file, l.lineno, l.content)).collect()
}

#[test]
fn added_line_that_looks_like_a_marker_is_reported() {
    assert_eq!(
        collected("--- /dev/null\n+++ b/a.rs\n@@ -0,0 +1,2 @@\n+++x\n+y\n"),
        vec![("a.rs".to_owned(), 1, "++x".to_owned()), ("a.rs".to_owned(), 2, "y".to_owned())]
    );
    assert_eq!(
        collected("+++ b/a.rs\n@@ -1 +1 @@\n--- gone\n+++ b/x\n"),
        vec![("a.rs".to_owned(), 1, "++ b/x".to_owned())]
    );
}

#[test]
fn hunk_ends_where_the_next_file_begins() {
    let diff = "diff --git a/a.rs b/a.rs\n--- a/a.rs\n+++ b/a.rs\n@@ -1 +1 @@\n-x\n+y\ndiff --git a/b.rs b/b.rs\n\
                index 1..2 100644\n--- a/b.rs\n+++ b/b.rs\n@@ -7 +7 @@\n-x\n+z\n";
    assert_eq!(
        collected(diff),
        vec![("a.rs".to_owned(), 1, "y".to_owned()), ("b.rs".to_owned(), 7, "z".to_owned())]
    );
}

#[test]
fn missing_newline_note_does_not_count() {
    assert_eq!(
        collected("--- a/a.rs\n+++ b/a.rs\n@@ -3 +3 @@\n-old\n\\ No newline at end of file\n+new\n"),
        vec![("a.rs".to_owned(), 3, "new".to_owned())]
    );
}

#[test]
fn line_number_overflow_is_reported() {
    let max = usize::MAX.to_string();
    let lines = texts(&["@@ header", "+one"]);
    let headers = vec![Some(max), None];
    assert!(added_lines(&lines, &headers).is_none());
    let small = vec![Some("5".to_owned()), None];
    assert_eq!(added_lines(&lines, &small).unwrap()[0].lineno, 5);
}

#[test]
fn unparseable_hunk_number_counts_from_zero() {
    let lines = texts(&["@@ header", "+one"]);
    let headers = vec![Some("99999999999999999999999999".to_owned()), None];
    assert_eq!(added_lines(&lines, &headers).unwrap()[0].lineno, 0);
}

#[test]
fn a_quote_that_nothing_closes_opens_no_literal() {
    assert_eq!(comment_text("b\"; // TODO"), "// TODO");
    assert_eq!(comment_text("b\"; f(\"x//y\") // TODO"), "//y\") // TODO");
    assert_eq!(comment_text("let s = \"a // b"), "// b");
    assert_eq!(comment_text("b\"; // say \"x\""), "// say \"x\"");
    assert_eq!(comment_text("b\"; say \"x\""), "");
    assert_eq!(comment_text("let s = r#\"a // b\""), "// b\"");
}

#[test]
fn raw_literals_have_no_escapes() {
    assert_eq!(comment_text("r\"\\\"; // TODO"), "// TODO");
    assert_eq!(comment_text("let u = r\"https://x\";"), "");
    assert_eq!(comment_text("r#\"a\"//b\"# // c"), "// c");
    assert_eq!(comment_text("r##\"a\"#//b\"##"), "");
}

#[test]
fn quotes_in_a_block_comment_open_nothing() {
    assert_eq!(comment_text("/* \" */ f(\"x\") // c"), "// c");
    assert_eq!(comment_text("/* see // c */"), "// c */");
    assert_eq!(comment_text("/* open // c"), "// c");
    assert_eq!(comment_text("/* a *// b"), "// b");
}

#[test]
fn comment_text_is_the_trimmed_tail() {
    assert_eq!(comment_text("let x = 1; // why  "), "// why");
    assert_eq!(comment_text("let x = 1;"), "");
    assert_eq!(comment_text("https://example"), "//example");
    assert_eq!(comment_text("let u = \"https://x\";"), "");
    assert_eq!(comment_text("let u = \"https://x\"; // why"), "// why");
    assert_eq!(comment_text("f(\"a\\\"//b\") // c"), "// c");
    assert_eq!(comment_text("f(\"a\\\\\") // c"), "// c");
    assert_eq!(comment_text("f('\"') // c"), "// c");
    assert_eq!(comment_text("f('\\\"') // c"), "// c");
    assert_eq!(comment_text("f(b'/') // c"), "// c");
    assert_eq!(comment_text("/"), "");
}

#[test]
fn test_module_start_is_the_first_mark() {
    assert_eq!(module_start(&vec![false, true, true]), 2);
    assert_eq!(module_start(&vec![false]), usize::MAX);
    assert_eq!(test_module_start_line(Some("fn a() {}\n#[cfg(test)]\nmod tests {}\n")), 2);
    assert_eq!(test_module_start_line(Some("fn a() {}\n")), usize::MAX);
    assert_eq!(test_module_start_line(None), usize::MAX);
}

#[test]
fn blocking_findings_name_the_place() {
    let mut scan = Scan::new();
    scan_added_line(&line("a.rs", 7, "    // TODO: later"), usize::MAX, &mut scan);
    scan_added_line(&line("a.rs", 8, "// let x = compute();"), usize::MAX, &mut scan);
    assert_eq!(
        scan.findings.blocking,
        vec![
            "a.rs:7: leftover TODO/FIXME/XXX/HACK marker: \"// TODO: later\"".to_owned(),
            "a.rs:8: looks like commented-out code: \"// let x = compute();\"".to_owned(),
        ]
    );
    assert!(scan.findings.warnings.is_empty());
}

#[test]
fn warnings_name_the_place() {
    let mut scan = Scan::new();
    scan_added_line(&line("a.rs", 1, "let tmp = 5;"), usize::MAX, &mut scan);
    scan_added_line(&line("a.rs", 2, "#[allow(clippy::x)]"), usize::MAX, &mut scan);
    scan_added_line(&line("a.rs", 3, "//   Increment the counter"), usize::MAX, &mut scan);
    assert!(scan.findings.blocking.is_empty());
    assert_eq!(
        scan.findings.warnings,
        vec![
            "a.rs:1: weak/generic identifier name \"tmp\": \"let tmp = 5;\"".to_owned(),
            "a.rs:2: new clippy suppression added, double-check the reason: \"#[allow(clippy::x)]\"".to_owned(),
            "a.rs:3: narrating 'what' comment, prefer self-explanatory code or a doc comment on why: \
             \"//   Increment the counter\""
                .to_owned(),
        ]
    );
}

#[test]
fn doc_comments_are_not_narrating() {
    let mut findings = Findings::new();
    let l = line("a.rs", 1, "/// Returns the value");
    check_narrating_comment(&l, "/// Returns the value", "/// Returns the value", &mut findings);
    check_narrating_comment(&l, "//! Returns the value", "//! Returns the value", &mut findings);
    assert!(findings.warnings.is_empty());
}

#[test]
fn repeated_literal_is_flagged_once() {
    let added = vec![
        line("a.rs", 1, "f(4096);"),
        line("a.rs", 2, "g(4096);"),
        line("a.rs", 9, "h(4096);"),
        line("b.rs", 1, "f(4096);"),
    ];
    let report = run("origin/main", &added, &vec![usize::MAX; 4]);
    assert!(report.clean);
    assert!(report.stdout.is_empty());
    assert_eq!(
        report.stderr,
        vec![
            "[extended-lint] warnings (review, does not block):".to_owned(),
            "  - a.rs: literal 4096 repeated 3x at lines 1, 2, 9 without a named constant -- consider hoisting it"
                .to_owned(),
            String::new(),
            "[extended-lint] no blocking findings.".to_owned(),
        ]
    );
}

#[test]
fn declared_literal_is_not_flagged() {
    let added = vec![
        line("a.rs", 1, "const SIZE: usize = 4096;"),
        line("a.rs", 2, "g(4096);"),
        line("a.rs", 9, "h(4096);"),
    ];
    let report = run("origin/main", &added, &vec![usize::MAX; 3]);
    assert_eq!(report.stderr, vec!["[extended-lint] no blocking findings.".to_owned()]);
}

#[test]
fn test_code_and_attributes_do_not_count() {
    let added = vec![
        line("a.rs", 1, "f(4096);"),
        line("a.rs", 2, "#[cap(4096)]"),
        line("a.rs", 3, "#![cap(4096)]"),
        line("a.rs", 50, "g(4096);"),
        line("a.rs", 51, "h(4096);"),
    ];
    let report = run("origin/main", &added, &vec![40; 5]);
    assert_eq!(report.stderr, vec!["[extended-lint] no blocking findings.".to_owned()]);
}

#[test]
fn occurrences_of_a_literal_are_kept_together() {
    let mut sites: Vec<LiteralSites> = Vec::new();
    let lit = |s: &str| vec![Some(s.to_owned()), None];
    collect_literal_site("a.rs", 1, "f(10);", &lit("10"), &mut sites);
    collect_literal_site("a.rs", 2, "f(20);", &lit("20"), &mut sites);
    collect_literal_site("a.rs", 3, "g(10);", &lit("10"), &mut sites);
    assert_eq!(sites.len(), 2);
    assert_eq!(sites[0].sites, vec![("f(10);".to_owned(), 1), ("g(10);".to_owned(), 3)]);
    assert_eq!(sites[1].sites, vec![("f(20);".to_owned(), 2)]);
    assert!(repeated_literal_warnings(&sites, &Vec::new()).is_empty());
}

#[test]
fn blocking_findings_fail_the_check() {
    let added = vec![line("a.rs", 7, "// FIXME soon")];
    let report = run("origin/main", &added, &vec![usize::MAX]);
    assert!(!report.clean);
    assert_eq!(
        report.stderr,
        vec![
            "[extended-lint] BLOCKING findings:".to_owned(),
            "  - a.rs:7: leftover TODO/FIXME/XXX/HACK marker: \"// FIXME soon\"".to_owned(),
            String::new(),
            "[extended-lint] fix the above, or if a match is a false positive, note why in the PR description."
                .to_owned(),
        ]
    );
}

#[test]
fn empty_diff_passes() {
    let report = run("origin/dev", &Vec::new(), &Vec::new());
    assert!(report.clean);
    assert!(report.stderr.is_empty());
    assert_eq!(
        report.stdout,
        vec!["[extended-lint] no added Rust lines vs origin/dev; nothing to check.".to_owned()]
    );
}

#[test]
fn matches_given_by_hand_decide_the_findings() {
    let added = vec![line("a.rs", 7, "// anything")];
    let found = vec![LineMatches {
        todo: true,
        code: true,
        weak: Some("foo".to_owned()),
        suppression: true,
        const_line: false,
        literals: Vec::new(),
    }];
    let report = run_matched("x", &added, &found, &vec![usize::MAX]);
    assert!(!report.clean);
    assert_eq!(report.stderr.len(), 9);
    let real = match_line(&added[0]);
    assert!(!real.todo && !real.code && real.weak.is_none() && !real.suppression);
}

#[test]
fn report_of_no_findings() {
    let report = report_findings(&Findings::new());
    assert!(report.clean);
    assert_eq!(report.stderr, vec!["[extended-lint] no blocking findings.".to_owned()]);
}

#[test]
fn tasks_are_selected_by_name() {
    assert_eq!(
        select_task(&Vec::new()).unwrap_err(),
        "usage: cargo xtask <lint-extended> [diff-base]"
    );
    assert_eq!(select_task(&texts(&["other"])).unwrap_err(), "unknown xtask task: other");
    let Task::LintExtended { base } = select_task(&texts(&["lint-extended"])).unwrap();
    assert_eq!(base, None);
    let Task::LintExtended { base } = select_task(&texts(&["lint-extended", "HEAD~1"])).unwrap();
    assert_eq!(base.as_deref(), Some("HEAD~1"));
}
