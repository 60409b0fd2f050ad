use todork::cli::{ColorWhen, SortOrder};
use todork::exit_code::ExitCode;
use todork::matcher::{default_tags, Finding, Severity, Tag};
use todork::order::sort_findings;
use todork::report::{
    blame_files, displayed_count, exit_code, limit_findings, resolve_color, scan_tags,
    should_page, uses_colour, ColorMode, PAGER_THRESHOLD,
};

fn finding(file: &str, line: usize, date: Option<i64>) -> Finding {
    Finding {
        file: file.to_string(),
        line,
        column: 1,
        tag: "TODO".to_string(),
        severity: Severity::Warning,
        author: None,
        message: String::new(),
        blame_author: None,
        blame_date: date,
        blame_commit: None,
    }
}

fn keys(fs: &[Finding]) -> Vec<(String, usize)> {
    fs.iter().map(|f| (f.file.clone(), f.line)).collect()
}

// ── colour resolution ─────────────────────────────────────────────────────

#[test]
fn resolve_color_always() {
    assert_eq!(resolve_color(ColorWhen::Always, false, false), ColorMode::Always);
}

#[test]
fn resolve_color_never() {
    assert_eq!(resolve_color(ColorWhen::Never, false, false), ColorMode::Never);
}

#[test]
fn resolve_color_auto_follows_no_color() {
    assert_eq!(resolve_color(ColorWhen::Auto, true, false), ColorMode::Never);
    assert_eq!(resolve_color(ColorWhen::Auto, true, true), ColorMode::Never);
    assert_eq!(resolve_color(ColorWhen::Auto, false, true), ColorMode::Always);
    assert_eq!(resolve_color(ColorWhen::Auto, false, false), ColorMode::Auto);
    assert_eq!(resolve_color(ColorWhen::Always, true, false), ColorMode::Always);
    assert_eq!(resolve_color(ColorWhen::Never, false, true), ColorMode::Never);
    assert!(uses_colour(ColorMode::Auto));
    assert!(!uses_colour(ColorMode::Never));
}

// ── exit codes ────────────────────────────────────────────────────────────

#[test]
fn exit_code_follows_findings_only() {
    assert_eq!(exit_code(0, false), ExitCode::NotFound);
    assert_eq!(exit_code(0, true), ExitCode::NotFound);
    assert_eq!(exit_code(3, false), ExitCode::Success);
    assert_eq!(exit_code(3, true), ExitCode::Success);
}

// ── paging and limits ─────────────────────────────────────────────────────

#[test]
fn paging_needs_three_terminals_and_many_findings() {
    assert_eq!(PAGER_THRESHOLD, 50);
    assert!(should_page(true, true, true, 51));
    assert!(!should_page(true, true, true, 50));
    assert!(!should_page(true, false, true, 100));
}

#[test]
fn limit_keeps_the_first_findings() {
    assert_eq!(displayed_count(10, None), 10);
    assert_eq!(displayed_count(10, Some(3)), 3);
    assert_eq!(displayed_count(2, Some(3)), 2);
    let fs = vec![finding("a", 1, None), finding("b", 2, None), finding("c", 3, None)];
    let shown = limit_findings(fs, Some(2));
    assert_eq!(keys(&shown), vec![("a".to_string(), 1), ("b".to_string(), 2)]);
}

// ── tags and blame ────────────────────────────────────────────────────────

#[test]
fn scan_tags_default_when_none_configured() {
    assert_eq!(scan_tags(&[]), default_tags());
    let t = vec![Tag { name: "X".to_string(), severity: Severity::Info }];
    assert_eq!(scan_tags(&t), t);
}

#[test]
fn blame_files_lists_each_file_once() {
    let fs = vec![finding("a", 1, None), finding("b", 1, None), finding("a", 2, None)];
    assert_eq!(blame_files(&fs), vec!["a".to_string(), "b".to_string()]);
}

#[test]
fn blame_files_compares_paths_by_components() {
    let fs = vec![finding("d/a", 1, None), finding("d//a", 1, None), finding("./d/a", 2, None)];
    assert_eq!(blame_files(&fs), vec!["d/a".to_string(), "./d/a".to_string()]);
}

// ── sorting ───────────────────────────────────────────────────────────────

#[test]
fn sort_by_path_then_line() {
    let fs = vec![finding("b.rs", 2, None), finding("a.rs", 9, None), finding("b.rs", 1, None)];
    let sorted = sort_findings(&fs, SortOrder::Path);
    assert_eq!(
        keys(&sorted),
        vec![("a.rs".to_string(), 9), ("b.rs".to_string(), 1), ("b.rs".to_string(), 2)]
    );
}

#[test]
fn sort_compares_paths_by_component() {
    // As paths, "a/b" comes before "a-b" ("a" is a prefix of "a-b"),
    // though '-' sorts before '/' as a byte.
    let fs = vec![finding("a-b", 1, None), finding("a/b", 1, None), finding("./x", 1, None)];
    let sorted = sort_findings(&fs, SortOrder::Path);
    assert_eq!(
        keys(&sorted),
        vec![("./x".to_string(), 1), ("a/b".to_string(), 1), ("a-b".to_string(), 1)]
    );
}

#[test]
fn sort_oldest_and_newest() {
    let fs = vec![
        finding("c", 1, Some(300)),
        finding("a", 1, None),
        finding("b", 1, Some(100)),
        finding("d", 1, Some(100)),
    ];
    let oldest = sort_findings(&fs, SortOrder::Oldest);
    assert_eq!(
        keys(&oldest),
        vec![("a".to_string(), 1), ("b".to_string(), 1), ("d".to_string(), 1), ("c".to_string(), 1)]
    );
    let newest = sort_findings(&fs, SortOrder::Newest);
    assert_eq!(
        keys(&newest),
        vec![("c".to_string(), 1), ("b".to_string(), 1), ("d".to_string(), 1), ("a".to_string(), 1)]
    );
}

#[test]
fn sort_keeps_every_finding() {
    let fs: Vec<Finding> = (0..40).map(|i| finding(&format!("f{}", (i * 7) % 5), 40 - i, None)).collect();
    let sorted = sort_findings(&fs, SortOrder::Path);
    assert_eq!(sorted.len(), fs.len());
    let mut a = keys(&fs);
    let mut b = keys(&sorted);
    a.sort();
    b.sort();
    assert_eq!(a, b);
    for w in sorted.windows(2) {
        assert!((w[0].file.as_str(), w[0].line) <= (w[1].file.as_str(), w[1].line));
    }
}
