use todork::cli::{Args, ColorWhen, Format};

fn parse(argv: &[&str]) -> Args {
    Args::parse_from(argv).unwrap()
}

#[test]
fn default_path_is_dot() {
    let args = parse(&["todork"]);
    assert_eq!(args.paths, vec![".".to_string()]);
}

#[test]
fn explicit_paths_are_preserved() {
    let args = parse(&["todork", "src/", "tests/"]);
    assert_eq!(args.paths, vec!["src/".to_string(), "tests/".to_string()]);
}

#[test]
fn cli_default_format_is_text() {
    let args = parse(&["todork"]);
    assert_eq!(args.format, Format::Text);
}

#[test]
fn format_json_parsed() {
    let args = parse(&["todork", "--format", "json"]);
    assert_eq!(args.format, Format::Json);
}

#[test]
fn format_github_annotations_parsed() {
    let args = parse(&["todork", "--format", "github-annotations"]);
    assert_eq!(args.format, Format::GithubAnnotations);
}

#[test]
fn tags_parsed_as_comma_list() {
    let args = parse(&["todork", "--tags", "todo,fixme"]);
    assert_eq!(args.tags, vec!["todo", "fixme"]);
}

#[test]
fn include_glob_repeatable() {
    let args = parse(&["todork", "--\u{69}nclude", "*.rs", "--\u{69}nclude", "*.py"]);
    assert_eq!(args.include_globs, vec!["*.rs", "*.py"]);
}

#[test]
fn exclude_glob_repeatable() {
    let args = parse(&["todork", "--exclude", "target/*"]);
    assert_eq!(args.exclude, vec!["target/*"]);
}

#[test]
fn no_gitignore_flag() {
    let args = parse(&["todork", "--no-gitignore"]);
    assert!(args.no_gitignore);
}

#[test]
fn hidden_flag() {
    let args = parse(&["todork", "--hidden"]);
    assert!(args.hidden);
}

#[test]
fn max_depth_parsed() {
    let args = parse(&["todork", "--max-depth", "3"]);
    assert_eq!(args.max_depth, Some(3));
}

#[test]
fn max_filesize_parsed() {
    let args = parse(&["todork", "--max-filesize", "1048576"]);
    assert_eq!(args.max_filesize, Some(1_048_576));
}

#[test]
fn threads_parsed() {
    let args = parse(&["todork", "--threads", "4"]);
    assert_eq!(args.threads, Some(4));
}

#[test]
fn color_never_parsed() {
    let args = parse(&["todork", "--color", "never"]);
    assert_eq!(args.color, ColorWhen::Never);
}

#[test]
fn color_always_parsed() {
    let args = parse(&["todork", "--color", "always"]);
    assert_eq!(args.color, ColorWhen::Always);
}

#[test]
fn exit_zero_flag() {
    let args = parse(&["todork", "--exit-zero"]);
    assert!(args.exit_zero);
}

#[test]
fn cli_blame_default_false() {
    let args = parse(&["todork"]);
    assert!(!args.blame);
}

#[test]
fn blame_flag() {
    let args = parse(&["todork", "--blame"]);
    assert!(args.blame);
}
