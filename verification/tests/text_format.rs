use todork::formatter::text::TextFormatter;
use todork::formatter::{plain_text, Color, Segment, Style};
use todork::matcher::{Finding, Severity};

fn make_finding(
    file: &str,
    line: usize,
    col: usize,
    tag: &str,
    severity: Severity,
    author: Option<&str>,
    msg: &str,
) -> Finding {
    Finding {
        file: file.to_string(),
        line,
        column: col,
        tag: tag.to_string(),
        severity,
        author: author.map(str::to_string),
        message: msg.to_string(),
        blame_author: None,
        blame_date: None,
        blame_commit: None,
    }
}

fn render(findings: &[Finding]) -> String {
    let fmt = TextFormatter::new(false);
    plain_text(&fmt.write_all(findings, "0.000s"))
}

#[test]
fn text_empty_findings_produces_no_output() {
    assert_eq!(render(&[]), "");
}

#[test]
fn single_todo_renders_correctly() {
    let f = make_finding("src/a.rs", 10, 4, "TODO", Severity::Warning, None, "do it");
    let out = render(&[f]);
    assert!(out.contains("src/a.rs"));
    assert!(out.contains(":10:4:"));
    assert!(out.contains("TODO:"));
    assert!(out.contains("do it"));
}

#[test]
fn finding_with_author_renders_parentheses() {
    let f = make_finding("a.rs", 1, 1, "TODO", Severity::Warning, Some("alice"), "refactor");
    let out = render(&[f]);
    assert!(out.contains("TODO(alice):"));
    assert!(out.contains("refactor"));
}

#[test]
fn findings_from_same_file_have_no_blank_line_between_them() {
    let findings = vec![
        make_finding("f.rs", 1, 1, "TODO", Severity::Warning, None, "a"),
        make_finding("f.rs", 2, 1, "FIXME", Severity::Error, None, "b"),
    ];
    let out = render(&findings);
    assert!(!out.contains("\n\n\n"));
}

#[test]
fn different_files_are_separated_by_blank_line() {
    let findings = vec![
        make_finding("a.rs", 1, 1, "TODO", Severity::Warning, None, "a"),
        make_finding("b.rs", 1, 1, "FIXME", Severity::Error, None, "b"),
    ];
    let out = render(&findings);
    assert!(out.contains("\n\n"));
}

#[test]
fn summary_line_singular() {
    let f = make_finding("a.rs", 1, 1, "TODO", Severity::Warning, None, "x");
    let out = render(&[f]);
    assert!(out.contains("Found 1 annotation across 1 file."));
}

#[test]
fn summary_line_plural() {
    let findings = vec![
        make_finding("a.rs", 1, 1, "TODO", Severity::Warning, None, "x"),
        make_finding("b.rs", 2, 1, "FIXME", Severity::Error, None, "y"),
    ];
    let out = render(&findings);
    assert!(out.contains("Found 2 annotations across 2 files."));
}

#[test]
fn summary_multiple_findings_one_file() {
    let findings = vec![
        make_finding("a.rs", 1, 1, "TODO", Severity::Warning, None, "x"),
        make_finding("a.rs", 2, 1, "FIXME", Severity::Error, None, "y"),
    ];
    let out = render(&findings);
    assert!(out.contains("Found 2 annotations across 1 file."));
}

#[test]
fn summary_counts_distinct_files() {
    let findings = vec![
        make_finding("a.rs", 1, 1, "TODO", Severity::Warning, None, "x"),
        make_finding("b.rs", 2, 1, "FIXME", Severity::Error, None, "y"),
        make_finding("a.rs", 3, 1, "NOTE", Severity::Info, None, "z"),
    ];
    let out = render(&findings);
    assert!(out.contains("Found 3 annotations across 2 files."));
}

#[test]
fn paths_naming_the_same_file_are_one_group() {
    let findings = vec![
        make_finding("src/a.rs", 1, 1, "TODO", Severity::Warning, None, "x"),
        make_finding("src//a.rs", 2, 1, "FIXME", Severity::Error, None, "y"),
        make_finding("src/./a.rs", 3, 1, "NOTE", Severity::Info, None, "z"),
    ];
    let out = render(&findings);
    assert_eq!(out.matches("\n\n").count(), 1);
    assert!(out.contains("Found 3 annotations across 1 file."));
}

#[test]
fn column_one_omitted() {
    let f = make_finding("a.rs", 5, 1, "TODO", Severity::Warning, None, "x");
    let out = render(&[f]);
    assert!(out.contains(":5:"));
    assert!(!out.contains(":5:1:"));
}

#[test]
fn column_greater_than_one_included() {
    let f = make_finding("a.rs", 5, 4, "TODO", Severity::Warning, None, "x");
    let out = render(&[f]);
    assert!(out.contains(":5:4:"));
}

#[test]
fn empty_message_still_renders_tag() {
    let f = make_finding("a.rs", 1, 1, "TODO", Severity::Warning, None, "");
    let out = render(&[f]);
    assert!(out.contains("TODO:"));
}

#[test]
fn blame_line_rendered_when_present() {
    let mut f = make_finding("a.rs", 1, 1, "TODO", Severity::Warning, None, "fix");
    f.blame_author = Some("alice <alice@example.com>".to_string());
    f.blame_date = Some(0);
    f.blame_commit = Some("abc1234".to_string());
    let out = render(&[f]);
    assert!(out.contains("└─"), "should have tree-art prefix");
    assert!(out.contains("alice <alice@example.com>"));
    assert!(out.contains("(abc1234)"));
}

#[test]
fn no_blame_line_when_blame_absent() {
    let f = make_finding("a.rs", 1, 1, "TODO", Severity::Warning, None, "fix");
    let out = render(&[f]);
    assert!(!out.contains("└─"));
}

// ── exact output ─────────────────────────────────────────────────────────

#[test]
fn text_output_exact() {
    let mut a = make_finding("a.rs", 3, 5, "TODO", Severity::Warning, Some("al"), "do it");
    a.blame_author = Some("bob".to_string());
    a.blame_date = Some(100);
    let b = make_finding("a.rs", 9, 1, "NOTE", Severity::Info, None, "");
    let c = make_finding("b.rs", 1, 2, "FIXME", Severity::Error, None, "x");
    let fmt = TextFormatter::new(false);
    let out = plain_text(&fmt.write_all_at(&[a, b, c], "1.50s", 100 + 8 * 86_400));
    assert_eq!(
        out,
        "a.rs:3:5: TODO(al): do it\n  └─ bob  ·  1 week ago\na.rs:9: NOTE:\n\nb.rs:1:2: FIXME: x\n\nFound 3 annotations across 2 files.  1.50s\n"
    );
}

#[test]
fn colour_follows_the_flag() {
    let f = make_finding("a.rs", 1, 1, "FIXME", Severity::Error, None, "x");
    let plain: Vec<Segment> = TextFormatter::new(false).write_all_at(&[f.clone()], "0s", 0);
    assert!(plain.iter().all(|s| s.style.is_none()));
    let coloured = TextFormatter::new(true).write_all_at(&[f], "0s", 0);
    assert_eq!(coloured[0].style, Some(Style { fg: Some(Color::Cyan), bold: true, dimmed: false }));
    assert_eq!(coloured[3].style, Some(Style { fg: Some(Color::Red), bold: true, dimmed: false }));
    assert_eq!(coloured[3].text, "FIXME:");
}

#[test]
fn text_ends_with_blank_line_and_summary() {
    let findings = vec![make_finding("a.rs", 1, 1, "TODO", Severity::Warning, Some("bob"), "")];
    let out = render(&findings);
    assert_eq!(out, "a.rs:1: TODO(bob):\n\nFound 1 annotation across 1 file.  0.000s\n");
}
