use todork::cli::SortOrder;
use todork::formatter::github::GithubFormatter;
use todork::formatter::table::TableFormatter;
use todork::formatter::{file_count, plain_text};
use todork::matcher::{Finding, Severity};
use todork::order::sort_findings;
use todork::report::exit_code;

fn finding(file: &str, line: usize, tag: &str, author: Option<&str>, msg: &str) -> Finding {
    Finding {
        file: file.to_string(),
        line,
        column: 3,
        tag: tag.to_string(),
        severity: Severity::Warning,
        author: author.map(str::to_string),
        message: msg.to_string(),
        blame_author: None,
        blame_date: None,
        blame_commit: None,
    }
}

#[test]
fn table_lines_have_equal_width() {
    let mut a = finding("ünïcödé/päth.rs", 7, "TODO", Some("é"), &"m".repeat(90));
    a.blame_author = Some("a very long author name that is cut short".to_string());
    a.blame_date = Some(0);
    let b = finding("b.rs", 123456, "NOTE", None, "short");
    let out = plain_text(&TableFormatter::new(false).write_all_at(&[a, b], "0s", 400 * 86_400));
    let lines: Vec<&str> = out.lines().collect();
    let width = lines[0].chars().count();
    for l in &lines[..4] {
        assert_eq!(l.chars().count(), width, "{l:?}");
    }
}

#[test]
fn github_output_has_one_line_per_finding() {
    let findings = vec![
        finding("a\r\nb", 1, "T\nD", Some("\n"), "x\ny"),
        finding("c", 2, "TODO", None, ""),
    ];
    let out = GithubFormatter.format_at(&findings, 0);
    assert_eq!(out.lines().count(), 2);
    assert_eq!(out.matches('\n').count(), 2);
}

#[test]
fn exit_zero_never_changes_the_code() {
    for n in [0usize, 1, 7] {
        assert_eq!(exit_code(n, true), exit_code(n, false));
    }
}

#[test]
fn sorting_is_a_permutation_in_order() {
    let fs = vec![
        finding("z", 3, "TODO", None, "1"),
        finding("a", 3, "TODO", None, "2"),
        finding("z", 1, "TODO", None, "3"),
        finding("a", 3, "NOTE", None, "4"),
    ];
    let sorted = sort_findings(&fs, SortOrder::Path);
    let mut msgs: Vec<&str> = sorted.iter().map(|f| f.message.as_str()).collect();
    assert_eq!(&msgs[2..], &["3", "1"]);
    msgs.sort();
    assert_eq!(msgs, vec!["1", "2", "3", "4"]);
}

#[test]
fn file_count_counts_distinct_files() {
    let fs = vec![
        finding("a", 1, "TODO", None, ""),
        finding("a", 2, "TODO", None, ""),
        finding("b", 1, "TODO", None, ""),
        finding("a", 3, "TODO", None, ""),
    ];
    assert_eq!(file_count(&fs), 2);
    assert_eq!(file_count(&[]), 0);
}
