use todork::formatter::table::{col_width, dash, digit_count, severity_str, truncate, TableFormatter};
use todork::formatter::plain_text;
use todork::matcher::{Finding, Severity};

fn make_finding(
    file: &str,
    line: usize,
    tag: &str,
    severity: Severity,
    author: Option<&str>,
    msg: &str,
) -> Finding {
    Finding {
        file: file.to_string(),
        line,
        column: 1,
        tag: tag.to_string(),
        severity,
        author: author.map(str::to_string),
        message: msg.to_string(),
        blame_author: None,
        blame_date: None,
        blame_commit: None,
    }
}

fn render(findings: &[Finding]) -> String {
    let fmt = TableFormatter::new(false);
    plain_text(&fmt.write_all(findings, "0.000s"))
}

#[test]
fn table_empty_findings_produces_no_output() {
    assert_eq!(render(&[]), "");
}

#[test]
fn header_row_is_present() {
    let f = make_finding("src/a.rs", 1, "TODO", Severity::Warning, None, "msg");
    let out = render(&[f]);
    assert!(out.contains("FILE"));
    assert!(out.contains("LINE"));
    assert!(out.contains("TAG"));
    assert!(out.contains("SEVERITY"));
    assert!(out.contains("MESSAGE"));
}

#[test]
fn finding_data_appears_in_row() {
    let f = make_finding("src/a.rs", 42, "TODO", Severity::Warning, None, "do it");
    let out = render(&[f]);
    assert!(out.contains("src/a.rs"));
    assert!(out.contains("42"));
    assert!(out.contains("TODO"));
    assert!(out.contains("warning"));
    assert!(out.contains("do it"));
}

#[test]
fn author_annotation_rendered_in_tag_column() {
    let f = make_finding("a.rs", 1, "TODO", Severity::Warning, Some("alice"), "refactor");
    let out = render(&[f]);
    assert!(out.contains("TODO(alice)"));
}

#[test]
fn long_message_is_truncated_with_ellipsis() {
    let long_msg = "a".repeat(80);
    let f = make_finding("a.rs", 1, "TODO", Severity::Warning, None, &long_msg);
    let out = render(&[f]);
    assert!(out.contains("..."));
}

#[test]
fn short_message_is_not_truncated() {
    let f = make_finding("a.rs", 1, "TODO", Severity::Warning, None, "short msg");
    let out = render(&[f]);
    assert!(out.contains("short msg"));
    assert!(!out.contains("..."));
}

#[test]
fn blame_columns_absent_without_blame_data() {
    let f = make_finding("a.rs", 1, "TODO", Severity::Warning, None, "msg");
    let out = render(&[f]);
    assert!(!out.contains("BLAME AUTHOR"));
    assert!(!out.contains("COMMIT"));
    let header_line = out.lines().next().unwrap_or("");
    assert!(!header_line.contains("BLAME"), "blame header should not appear");
}

#[test]
fn blame_columns_present_when_blame_data_exists() {
    let mut f = make_finding("a.rs", 1, "TODO", Severity::Warning, None, "msg");
    f.blame_author = Some("bob <bob@example.com>".to_string());
    f.blame_date = Some(0);
    f.blame_commit = Some("abc1234".to_string());
    let out = render(&[f]);
    assert!(out.contains("BLAME AUTHOR"));
    assert!(out.contains("AGE"));
    assert!(out.contains("COMMIT"));
    assert!(out.contains("bob <bob@example.com>"));
    assert!(out.contains("abc1234"));
}

#[test]
fn columns_are_aligned() {
    let findings = vec![
        make_finding("short.rs", 1, "TODO", Severity::Warning, None, "msg"),
        make_finding("a/longer/path/file.rs", 999, "FIXME", Severity::Error, None, "other"),
    ];
    let out = render(&findings);
    let lines: Vec<&str> = out.lines().collect();
    assert!(lines.len() >= 4);
}

#[test]
fn summary_line_is_present() {
    let findings = vec![
        make_finding("a.rs", 1, "TODO", Severity::Warning, None, "x"),
        make_finding("b.rs", 2, "FIXME", Severity::Error, None, "y"),
    ];
    let out = render(&findings);
    assert!(out.contains("Found 2 annotations across 2 files."));
}

// ── helpers and exact output ─────────────────────────────────────────────

#[test]
fn digit_count_is_exact() {
    assert_eq!(digit_count(0), 1);
    assert_eq!(digit_count(9), 1);
    assert_eq!(digit_count(10), 2);
    assert_eq!(digit_count(999), 3);
    assert_eq!(digit_count(999_999_999_999_999_999), 18);
    assert_eq!(digit_count(usize::MAX), usize::MAX.to_string().len());
}

#[test]
fn helpers_are_exact() {
    assert_eq!(col_width("LINE", &[]), 4);
    assert_eq!(col_width("LINE", &[2, 7, 3]), 7);
    assert_eq!(truncate("abcdef", 6), "abcdef");
    assert_eq!(truncate("abcdefg", 6), "abc...");
    assert_eq!(truncate("abcdefg", 2), "...");
    assert_eq!(truncate("ééééé", 4), "é...");
    assert_eq!(dash(3), "───");
    assert_eq!(severity_str(Severity::Info), "info");
}

#[test]
fn table_output_exact() {
    let mut a = make_finding("src/a.rs", 7, "TODO", Severity::Warning, Some("al"), "fix");
    a.blame_author = Some("bob".to_string());
    a.blame_date = Some(0);
    a.blame_commit = Some("abc1234".to_string());
    let b = make_finding("b.rs", 12345, "NOTE", Severity::Info, None, "a note");
    let fmt = TableFormatter::new(false);
    let out = plain_text(&fmt.write_all_at(&[a, b], "0.5s", 2 * 86_400));
    let expected = [
        "FILE       LINE  TAG       SEVERITY  MESSAGE  BLAME AUTHOR  AGE         COMMIT \n",
        "────────  ─────  ────────  ────────  ───────  ────────────  ──────────  ───────\n",
        "src/a.rs      7  TODO(al)  warning   fix      bob           2 days ago  abc1234\n",
        "b.rs      12345  NOTE      info      a note   -             -           -      \n",
        "\n",
        "Found 2 annotations across 2 files.  0.5s\n",
    ]
    .join("");
    assert_eq!(out, expected);
}

#[test]
fn table_ends_with_blank_line_and_summary() {
    let findings = vec![
        make_finding("src/a.rs", 1, "TODO", Severity::Warning, None, "x"),
        make_finding("src//a.rs", 2, "FIXME", Severity::Error, None, "y"),
        make_finding("src/b.rs", 3, "NOTE", Severity::Info, None, "z"),
    ];
    let out = render(&findings);
    assert!(out.ends_with("\n\nFound 3 annotations across 2 files.  0.000s\n"));
    assert!(!out.contains('B'));
    assert!(!out.contains('C'));
}
