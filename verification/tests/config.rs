use todork::cli::{Args, ColorWhen, Format, SortOrder};
use todork::config::{build_glob_set, resolve_tags, should_scan, Config};
use todork::error::TodorkError;
use todork::matcher::default_tags;

fn parse(args: &[&str]) -> Config {
    let args = Args::parse_from(args).unwrap();
    Config::from_args(args).unwrap()
}

fn parse_err(args: &[&str]) -> TodorkError {
    let args = Args::parse_from(args).unwrap();
    match Config::from_args(args) {
        Ok(_) => panic!("expected an error"),
        Err(e) => e,
    }
}

// ── basics ────────────────────────────────────────────────────────────────

#[test]
fn config_from_default_args() {
    let c = parse(&["todork"]);
    assert_eq!(c.paths, vec![".".to_string()]);
}

#[test]
fn config_preserves_multiple_paths() {
    let c = parse(&["todork", "src/", "tests/"]);
    assert_eq!(c.paths.len(), 2);
}

#[test]
fn default_max_file_size_is_10mb() {
    let c = parse(&["todork"]);
    assert_eq!(c.max_file_size, 10 * 1024 * 1024);
}

#[test]
fn custom_max_filesize() {
    let c = parse(&["todork", "--max-filesize", "1000"]);
    assert_eq!(c.max_file_size, 1000);
}

// ── format ────────────────────────────────────────────────────────────────

#[test]
fn config_default_format_is_text() {
    assert_eq!(parse(&["todork"]).format, Format::Text);
}

#[test]
fn format_json() {
    assert_eq!(parse(&["todork", "--format", "json"]).format, Format::Json);
}

#[test]
fn format_github_annotations() {
    assert_eq!(
        parse(&["todork", "--format", "github-annotations"]).format,
        Format::GithubAnnotations
    );
}

// ── tags ──────────────────────────────────────────────────────────────────

#[test]
fn default_tags_all_present() {
    let c = parse(&["todork"]);
    assert_eq!(c.tags.len(), default_tags().len());
}

#[test]
fn single_tag_filter() {
    let c = parse(&["todork", "--tags", "todo"]);
    assert_eq!(c.tags.len(), 1);
    assert_eq!(c.tags[0].name, "TODO");
}

#[test]
fn multiple_tag_filter() {
    let c = parse(&["todork", "--tags", "todo,fixme"]);
    assert_eq!(c.tags.len(), 2);
}

#[test]
fn tags_are_case_insensitive() {
    let c = parse(&["todork", "--tags", "Todo"]);
    assert_eq!(c.tags[0].name, "TODO");
}

#[test]
fn custom_tag_accepted() {
    let c = parse(&["todork", "--tags", "SAFETY"]);
    assert_eq!(c.tags[0].name, "SAFETY");
}

#[test]
fn empty_tag_name_is_error() {
    // Empty tag names are rejected by resolve_tags directly.
    let err = resolve_tags(&["".to_string()]);
    assert!(err.is_err());
}

// ── glob filters ──────────────────────────────────────────────────────────

#[test]
fn no_include_returns_none() {
    assert!(parse(&["todork"]).include_globs.is_none());
}

#[test]
fn include_glob_compiled() {
    let c = parse(&["todork", "--\u{69}nclude", "*.rs"]);
    assert!(c.include_globs.is_some());
}

#[test]
fn exclude_glob_compiled() {
    let c = parse(&["todork", "--exclude", "target/*"]);
    assert!(c.exclude.is_some());
}

#[test]
fn include_matches_expected_path() {
    let c = parse(&["todork", "--\u{69}nclude", "*.rs"]);
    let gs = c.include_globs.unwrap();
    assert!(gs.is_match("foo.rs"));
    assert!(!gs.is_match("foo.py"));
}

#[test]
fn exclude_matches_expected_path() {
    let c = parse(&["todork", "--exclude", "*.min.js"]);
    let gs = c.exclude.unwrap();
    assert!(gs.is_match("app.min.js"));
    assert!(!gs.is_match("app.js"));
}

// ── boolean flags ─────────────────────────────────────────────────────────

#[test]
fn default_uses_gitignore() {
    assert!(parse(&["todork"]).use_gitignore);
}

#[test]
fn no_gitignore_disables_it() {
    assert!(!parse(&["todork", "--no-gitignore"]).use_gitignore);
}

#[test]
fn default_skips_hidden() {
    assert!(!parse(&["todork"]).search_hidden);
}

#[test]
fn hidden_flag_enables_hidden() {
    assert!(parse(&["todork", "--hidden"]).search_hidden);
}

#[test]
fn exit_zero_default_false() {
    assert!(!parse(&["todork"]).exit_zero);
}

#[test]
fn exit_zero_flag_sets_true() {
    assert!(parse(&["todork", "--exit-zero"]).exit_zero);
}

// ── threads ───────────────────────────────────────────────────────────────

#[test]
fn threads_zero_is_error() {
    let err = parse_err(&["todork", "--threads", "0"]);
    assert!(err.message().contains("threads"));
}

#[test]
fn threads_custom_value() {
    assert_eq!(parse(&["todork", "--threads", "4"]).threads, 4);
}

// ── colour ────────────────────────────────────────────────────────────────

#[test]
fn default_color_is_auto() {
    assert_eq!(parse(&["todork"]).color, ColorWhen::Auto);
}

#[test]
fn color_never() {
    assert_eq!(parse(&["todork", "--color", "never"]).color, ColorWhen::Never);
}

#[test]
fn color_always() {
    assert_eq!(parse(&["todork", "--color", "always"]).color, ColorWhen::Always);
}

// ── blame ─────────────────────────────────────────────────────────────────

#[test]
fn config_blame_default_false() {
    assert!(!parse(&["todork"]).blame);
}

#[test]
fn blame_flag_sets_true() {
    assert!(parse(&["todork", "--blame"]).blame);
}

// ── sort ──────────────────────────────────────────────────────────────────

#[test]
fn sort_default_is_path() {
    assert_eq!(parse(&["todork"]).sort, SortOrder::Path);
}

#[test]
fn sort_oldest_implies_blame() {
    let c = parse(&["todork", "--sort", "oldest"]);
    assert_eq!(c.sort, SortOrder::Oldest);
    assert!(c.blame, "--sort oldest should imply --blame");
}

#[test]
fn sort_newest_implies_blame() {
    let c = parse(&["todork", "--sort", "newest"]);
    assert_eq!(c.sort, SortOrder::Newest);
    assert!(c.blame, "--sort newest should imply --blame");
}

#[test]
fn sort_path_does_not_imply_blame() {
    let c = parse(&["todork", "--sort", "path"]);
    assert!(!c.blame);
}

#[test]
fn limit_default_none() {
    let c = parse(&["todork"]);
    assert_eq!(c.limit, None);
}

#[test]
fn limit_flag_parsed() {
    let c = parse(&["todork", "--limit", "50"]);
    assert_eq!(c.limit, Some(50));
}

// ── errors and filters ────────────────────────────────────────────────────

#[test]
fn invalid_tag_is_reported_by_name() {
    match parse_err(&["todork", "--tags", "todo,bad-tag,x1"]) {
        TodorkError::InvalidTag(name) => assert_eq!(name, "bad-tag"),
        other => panic!("unexpected error {:?}", other),
    }
}

#[test]
fn invalid_glob_is_reported_with_its_pattern() {
    match parse_err(&["todork", "--exclude", "a[", "--exclude", "b"]) {
        TodorkError::InvalidGlob { pattern, .. } => assert_eq!(pattern, "a["),
        other => panic!("unexpected error {:?}", other),
    }
}

#[test]
fn tag_error_comes_before_glob_error() {
    match parse_err(&["todork", "--tags", "9", "--exclude", "a["]) {
        TodorkError::InvalidTag(name) => assert_eq!(name, "9"),
        other => panic!("unexpected error {:?}", other),
    }
}

#[test]
fn resolved_tags_keep_default_severity() {
    let tags = resolve_tags(&["fixme".to_string(), "perf".to_string()]).unwrap();
    assert_eq!(tags[0].name, "FIXME");
    assert_eq!(tags[0].severity, todork::matcher::Severity::Error);
    assert_eq!(tags[1].name, "PERF");
    assert_eq!(tags[1].severity, todork::matcher::Severity::Warning);
}

#[test]
fn should_scan_matches_path_or_name() {
    let wanted = build_glob_set(&["*.rs".to_string()]).unwrap();
    let unwanted = build_glob_set(&["skip.rs".to_string()]).unwrap();
    assert!(should_scan("src/a.rs", "a.rs", &wanted, &unwanted));
    assert!(!should_scan("src/skip.rs", "skip.rs", &wanted, &unwanted));
    assert!(!should_scan("src/a.py", "a.py", &wanted, &unwanted));
    assert!(should_scan("src/a.py", "a.py", &None, &None));
    assert!(build_glob_set(&[]).unwrap().is_none());
}
