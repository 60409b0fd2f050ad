use todork::formatter::github::{escape_data, escape_property, level, GithubFormatter};
use todork::formatter::Formatter;
use todork::matcher::{Finding, Severity};

fn finding(
    file: &str,
    line: usize,
    col: usize,
    tag: &str,
    severity: Severity,
    author: Option<&str>,
    msg: &str,
) -> Finding {
    Finding {
        file: file.to_string(),
        line,
        column: col,
        tag: tag.to_string(),
        severity,
        author: author.map(str::to_string),
        message: msg.to_string(),
        blame_author: None,
        blame_date: None,
        blame_commit: None,
    }
}

fn render(findings: &[Finding]) -> String {
    GithubFormatter.format(findings)
}

#[test]
fn github_empty_findings_produces_no_output() {
    assert_eq!(render(&[]), "");
}

#[test]
fn error_severity_maps_to_error_level() {
    let f = finding("a.rs", 1, 1, "FIXME", Severity::Error, None, "msg");
    assert!(render(&[f]).starts_with("::error "));
}

#[test]
fn warning_severity_maps_to_warning_level() {
    let f = finding("a.rs", 1, 1, "TODO", Severity::Warning, None, "msg");
    assert!(render(&[f]).starts_with("::warning "));
}

#[test]
fn info_severity_maps_to_notice_level() {
    let f = finding("a.rs", 1, 1, "NOTE", Severity::Info, None, "msg");
    assert!(render(&[f]).starts_with("::notice "));
}

#[test]
fn output_format_correct() {
    let f = finding("src/main.rs", 42, 5, "TODO", Severity::Warning, None, "fix this");
    let out = render(&[f]);
    assert_eq!(out.trim(), "::warning file=src/main.rs,line=42,col=5,title=TODO::fix this");
}

#[test]
fn author_included_in_title() {
    let f = finding("a.rs", 1, 1, "TODO", Severity::Warning, Some("alice"), "msg");
    let out = render(&[f]);
    assert!(out.contains("title=TODO(alice)"));
}

#[test]
fn multiple_findings_each_on_own_line() {
    let findings = vec![
        finding("a.rs", 1, 1, "TODO", Severity::Warning, None, "a"),
        finding("b.rs", 2, 3, "FIXME", Severity::Error, None, "b"),
    ];
    let out = render(&findings);
    let lines: Vec<_> = out.lines().collect();
    assert_eq!(lines.len(), 2);
}

#[test]
fn colon_in_message_is_escaped() {
    let f = finding("a.rs", 1, 1, "NOTE", Severity::Info, None, "key: value");
    let out = render(&[f]);
    assert!(out.contains("key: value"));
}

#[test]
fn colon_in_file_path_is_escaped() {
    let f = finding("C:\\path\\file.rs", 1, 1, "TODO", Severity::Warning, None, "msg");
    let out = render(&[f]);
    assert!(out.contains("%3A") || out.contains("C:\\"));
}

#[test]
fn newline_in_message_is_escaped() {
    let f = finding("a.rs", 1, 1, "TODO", Severity::Warning, None, "line1\nline2");
    let out = render(&[f]);
    assert!(out.contains("%0A"));
}

#[test]
fn percent_in_message_is_escaped() {
    let f = finding("a.rs", 1, 1, "TODO", Severity::Warning, None, "100% done");
    let out = render(&[f]);
    assert!(out.contains("%25"));
}

#[test]
fn empty_message_renders_cleanly() {
    let f = finding("a.rs", 1, 1, "TODO", Severity::Warning, None, "");
    let out = render(&[f]);
    assert!(out.trim().ends_with("::"));
}

#[test]
fn blame_info_appended_to_message() {
    let mut f = finding("a.rs", 1, 1, "TODO", Severity::Warning, None, "fix this");
    f.blame_author = Some("alice <alice@example.com>".to_string());
    f.blame_date = Some(0);
    f.blame_commit = Some("abc1234".to_string());
    let out = render(&[f]);
    assert!(out.contains("alice <alice@example.com>"));
    assert!(out.contains("abc1234"));
}

#[test]
fn no_blame_info_when_fields_absent() {
    let f = finding("a.rs", 1, 1, "TODO", Severity::Warning, None, "msg");
    let out = render(&[f]);
    assert!(!out.contains(" ["));
}

// ── exact values ─────────────────────────────────────────────────────────

#[test]
fn escapes_are_exact() {
    assert_eq!(escape_property("a:b,c%\r\nd"), "a%3Ab%2Cc%25%0D%0Ad");
    assert_eq!(escape_data("a:b,c%\r\nd"), "a:b,c%25%0D%0Ad");
    assert_eq!(escape_data(""), "");
}

#[test]
fn levels_are_exact() {
    assert_eq!(level(Severity::Error), "error");
    assert_eq!(level(Severity::Warning), "warning");
    assert_eq!(level(Severity::Info), "notice");
}

#[test]
fn blame_line_exact_at_fixed_time() {
    let mut f = finding("d:/x,y.rs", 7, 2, "TODO", Severity::Warning, Some("a:b"), "50%");
    f.blame_author = Some("bob".to_string());
    f.blame_date = Some(1_000_000);
    f.blame_commit = Some("abc1234".to_string());
    let out = GithubFormatter.format_at(&[f], 1_000_000 + 3 * 86_400);
    assert_eq!(
        out,
        "::warning file=d%3A/x%2Cy.rs,line=7,col=2,title=TODO(a%3Ab)::50%25 [bob · 3 days ago (abc1234)]\n"
    );
}

#[test]
fn one_line_per_finding_even_with_line_breaks_inside() {
    let findings = vec![
        finding("a\nb.rs", 1, 1, "TO\nDO", Severity::Warning, Some("x\ny"), "l1\nl2\r\nl3"),
        finding("c.rs", 2, 1, "TODO", Severity::Warning, None, "\n"),
        finding("d.rs", 3, 1, "NOTE", Severity::Info, None, "plain"),
    ];
    let out = GithubFormatter.format_at(&findings, 0);
    assert_eq!(out.matches('\n').count(), 3);
}
