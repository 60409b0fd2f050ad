use todork::matcher::{default_tags, Matcher, Severity, Tag};

fn matcher() -> Matcher {
    Matcher::new(&default_tags()).unwrap()
}

const P: &str = "test.rs";

// ── construction ────────────────────────────────────────────────────────

#[test]
fn new_with_default_tags_succeeds() {
    assert!(Matcher::new(&default_tags()).is_ok());
}

#[test]
fn new_with_single_tag_succeeds() {
    let tags = [Tag { name: "TODO".to_string(), severity: Severity::Warning }];
    assert!(Matcher::new(&tags).is_ok());
}

// ── basic detection ──────────────────────────────────────────────────────

#[test]
fn detects_todo() {
    let findings = matcher().scan_line("// TODO: do something", P, 1);
    assert_eq!(findings.len(), 1);
    assert_eq!(findings[0].tag, "TODO");
}

#[test]
fn detects_fixme() {
    let findings = matcher().scan_line("// FIXME: crashes here", P, 1);
    assert_eq!(findings.len(), 1);
    assert_eq!(findings[0].tag, "FIXME");
}

#[test]
fn detects_hack() {
    let findings = matcher().scan_line("# HACK: workaround", P, 1);
    assert_eq!(findings.len(), 1);
    assert_eq!(findings[0].tag, "HACK");
}

#[test]
fn detects_xxx() {
    let findings = matcher().scan_line("// XXX: unsafe cast", P, 1);
    assert_eq!(findings.len(), 1);
    assert_eq!(findings[0].tag, "XXX");
}

#[test]
fn detects_note() {
    let findings = matcher().scan_line("// NOTE: assumes UTC", P, 1);
    assert_eq!(findings.len(), 1);
    assert_eq!(findings[0].tag, "NOTE");
}

#[test]
fn detects_bug() {
    let findings = matcher().scan_line("// BUG: off by one", P, 1);
    assert_eq!(findings.len(), 1);
    assert_eq!(findings[0].tag, "BUG");
}

#[test]
fn detects_optimize() {
    let findings = matcher().scan_line("// OPTIMIZE: cache this", P, 1);
    assert_eq!(findings.len(), 1);
    assert_eq!(findings[0].tag, "OPTIMIZE");
}

#[test]
fn detects_deprecated() {
    let findings = matcher().scan_line("// DEPRECATED: use new_fn()", P, 1);
    assert_eq!(findings.len(), 1);
    assert_eq!(findings[0].tag, "DEPRECATED");
}

// ── author extraction ────────────────────────────────────────────────────

#[test]
fn extracts_author() {
    let findings = matcher().scan_line("// TODO(alice): refactor this", P, 1);
    assert_eq!(findings.len(), 1);
    assert_eq!(findings[0].author.as_deref(), Some("alice"));
    assert_eq!(findings[0].message, "refactor this");
}

#[test]
fn no_author_when_no_parens() {
    let findings = matcher().scan_line("// TODO: plain message", P, 1);
    assert_eq!(findings[0].author, None);
    assert_eq!(findings[0].message, "plain message");
}

#[test]
fn author_with_spaces_trimmed() {
    let findings = matcher().scan_line("// HACK( bob ): monkey patch", P, 1);
    assert_eq!(findings[0].author.as_deref(), Some("bob"));
}

// ── message extraction ───────────────────────────────────────────────────

#[test]
fn message_extracted_without_colon() {
    let findings = matcher().scan_line("// TODO do the thing", P, 1);
    assert_eq!(findings.len(), 1);
    assert_eq!(findings[0].message, "do the thing");
}

#[test]
fn message_is_empty_when_no_text_follows() {
    let findings = matcher().scan_line("// TODO", P, 1);
    assert_eq!(findings.len(), 1);
    assert_eq!(findings[0].message, "");
}

#[test]
fn message_trimmed() {
    let findings = matcher().scan_line("// TODO:   lots of spaces   ", P, 1);
    assert_eq!(findings[0].message, "lots of spaces");
}

// ── line / column numbers ────────────────────────────────────────────────

#[test]
fn line_number_preserved() {
    let findings = matcher().scan_line("// TODO: test", P, 42);
    assert_eq!(findings[0].line, 42);
}

#[test]
fn column_is_one_based() {
    let findings = matcher().scan_line("TODO: at start", P, 1);
    assert_eq!(findings[0].column, 1);
}

#[test]
fn column_accounts_for_prefix() {
    let findings = matcher().scan_line("// TODO: indented", P, 1);
    assert_eq!(findings[0].column, 4);
}

// ── word boundary enforcement ────────────────────────────────────────────

#[test]
fn does_not_match_debug_as_bug() {
    let findings = matcher().scan_line("let debug = true; // DEBUG mode", P, 1);
    assert!(findings.iter().all(|f| f.tag != "BUG"), "BUG should not match inside DEBUG");
}

#[test]
fn does_not_match_notable_as_note() {
    let findings = matcher().scan_line("let notable = true;", P, 1);
    assert!(findings.iter().all(|f| f.tag != "NOTE"));
}

#[test]
fn does_not_match_prefix_word() {
    let findings = matcher().scan_line("let SOMETODO = 1;", P, 1);
    assert!(findings.iter().all(|f| f.tag != "TODO"));
}

// ── multiple findings per line ───────────────────────────────────────────

#[test]
fn multiple_tags_on_same_line() {
    let findings = matcher().scan_line("// TODO: first  FIXME: second", P, 1);
    assert_eq!(findings.len(), 2);
    assert_eq!(findings[0].tag, "TODO");
    assert_eq!(findings[1].tag, "FIXME");
}

// ── severity ─────────────────────────────────────────────────────────────

#[test]
fn todo_has_warning_severity() {
    let findings = matcher().scan_line("// TODO: x", P, 1);
    assert_eq!(findings[0].severity, Severity::Warning);
}

#[test]
fn fixme_has_error_severity() {
    let findings = matcher().scan_line("// FIXME: x", P, 1);
    assert_eq!(findings[0].severity, Severity::Error);
}

#[test]
fn note_has_info_severity() {
    let findings = matcher().scan_line("// NOTE: x", P, 1);
    assert_eq!(findings[0].severity, Severity::Info);
}

// ── block comment / multiline style ─────────────────────────────────────

#[test]
fn detects_todo_in_block_comment() {
    let findings = matcher().scan_line(" * TODO: inside a block comment", P, 1);
    assert_eq!(findings.len(), 1);
    assert_eq!(findings[0].tag, "TODO");
}

// ── empty / trivial input ────────────────────────────────────────────────

#[test]
fn empty_line_returns_no_findings() {
    assert!(matcher().scan_line("", P, 1).is_empty());
}

#[test]
fn line_with_no_tags_returns_empty() {
    assert!(matcher().scan_line("fn main() { println!(\"hello\"); }", P, 1).is_empty());
}

// ── file path preserved ──────────────────────────────────────────────────

#[test]
fn file_path_preserved_in_finding() {
    let findings = matcher().scan_line("// TODO: check", "src/foo.rs", 5);
    assert_eq!(findings[0].file, "src/foo.rs");
}

// ── details ──────────────────────────────────────────────────────────────

#[test]
fn detail_from_groups_trims_and_drops_empty_author() {
    let (author, message) =
        Matcher::detail_from_groups(Some((Some("  ".to_string()), Some(" msg ".to_string()))));
    assert_eq!(author, None);
    assert_eq!(message, "msg");
    let (author, message) = Matcher::detail_from_groups(None);
    assert_eq!(author, None);
    assert_eq!(message, "");
}

#[test]
fn message_follows_a_custom_tag_with_underscore() {
    let tags = [Tag { name: "MY_TAG".to_string(), severity: Severity::Warning }];
    let m = Matcher::new(&tags).unwrap();
    let findings = m.scan_line("// MY_TAG(bo): hello", P, 1);
    assert_eq!(findings.len(), 1);
    assert_eq!(findings[0].author.as_deref(), Some("bo"));
    assert_eq!(findings[0].message, "hello");
}

#[test]
fn custom_tag_is_found_with_its_severity() {
    let tags = [Tag { name: "SAFETY".to_string(), severity: Severity::Info }];
    let m = Matcher::new(&tags).unwrap();
    let findings = m.scan_line("// SAFETY: pointer is valid; TODO: not a tag here", P, 3);
    assert_eq!(findings.len(), 1);
    assert_eq!(findings[0].tag, "SAFETY");
    assert_eq!(findings[0].severity, Severity::Info);
    assert_eq!(findings[0].column, 4);
}

#[test]
fn empty_tag_matches_between_words_but_not_right_after_a_match() {
    let tags = [
        Tag { name: "TODO".to_string(), severity: Severity::Warning },
        Tag { name: String::new(), severity: Severity::Info },
    ];
    let m = Matcher::new(&tags).unwrap();
    let findings = m.scan_line("TODO  ", P, 1);
    let cols: Vec<(usize, &str)> = findings.iter().map(|f| (f.column, f.tag.as_str())).collect();
    assert_eq!(cols, vec![(1, "TODO"), (6, ""), (7, "")]);
}
