use todork::matcher::{default_tags, Matcher};
use todork::scanner::{scan_contents, DEFAULT_MAX_FILE_SIZE};

fn matcher() -> Matcher {
    Matcher::new(&default_tags()).unwrap()
}

fn scan(content: &[u8], max: u64) -> Vec<todork::matcher::Finding> {
    scan_contents("tmp/file.rs", content, content.len() as u64, &matcher(), max)
}

// ── basic scanning ────────────────────────────────────────────────────────

#[test]
fn finds_todo_in_simple_file() {
    let findings = scan(b"// TODO: do something\n", DEFAULT_MAX_FILE_SIZE);
    assert_eq!(findings.len(), 1);
    assert_eq!(findings[0].tag, "TODO");
    assert_eq!(findings[0].line, 1);
}

#[test]
fn finds_multiple_annotations_across_lines() {
    let findings = scan(b"// TODO: first\nfn foo() {}\n// FIXME: second\n", DEFAULT_MAX_FILE_SIZE);
    assert_eq!(findings.len(), 2);
    assert_eq!(findings[0].tag, "TODO");
    assert_eq!(findings[0].line, 1);
    assert_eq!(findings[1].tag, "FIXME");
    assert_eq!(findings[1].line, 3);
}

#[test]
fn line_numbers_are_one_based() {
    let findings = scan(b"line one\nline two\n// TODO: on line three\n", DEFAULT_MAX_FILE_SIZE);
    assert_eq!(findings[0].line, 3);
}

#[test]
fn file_path_is_preserved() {
    let findings = scan(b"// TODO: path test\n", DEFAULT_MAX_FILE_SIZE);
    assert_eq!(findings[0].file, "tmp/file.rs");
}

// ── binary detection ─────────────────────────────────────────────────────

#[test]
fn skips_binary_file_with_null_byte() {
    let findings = scan(b"// TODO: something\x00binary data", DEFAULT_MAX_FILE_SIZE);
    assert!(findings.is_empty(), "binary file should yield no findings");
}

#[test]
fn skips_binary_file_null_at_start() {
    let findings = scan(b"\x00// TODO: prefixed by null", DEFAULT_MAX_FILE_SIZE);
    assert!(findings.is_empty());
}

#[test]
fn null_byte_after_probe_window_is_not_checked() {
    let mut content = vec![b'a'; 8193];
    content.push(0u8);
    content.extend_from_slice(b"\n// TODO: after null\n");
    let findings = scan(&content, DEFAULT_MAX_FILE_SIZE);
    assert!(!findings.is_empty());
}

// ── size limit ────────────────────────────────────────────────────────────

#[test]
fn skips_file_over_size_limit() {
    let findings = scan(b"// TODO: this file is too big conceptually\n", 0);
    assert!(findings.is_empty(), "file over limit should yield no findings");
}

#[test]
fn scans_file_exactly_at_size_limit() {
    let content = b"// TODO: exact\n";
    let findings = scan(content, content.len() as u64);
    assert_eq!(findings.len(), 1);
}

// ── empty file ────────────────────────────────────────────────────────────

#[test]
fn empty_file_returns_no_findings() {
    assert!(scan(b"", DEFAULT_MAX_FILE_SIZE).is_empty());
}

// ── no annotations ───────────────────────────────────────────────────────

#[test]
fn file_with_no_tags_returns_empty() {
    assert!(scan(b"fn main() {\n    println!(\"hello\");\n}\n", DEFAULT_MAX_FILE_SIZE).is_empty());
}

// ── line endings and invalid text ────────────────────────────────────────

#[test]
fn crlf_line_endings_are_stripped() {
    let findings = scan(b"// TODO: windows\r\n// FIXME: also\r\n", DEFAULT_MAX_FILE_SIZE);
    assert_eq!(findings.len(), 2);
    assert_eq!(findings[0].message, "windows");
    assert_eq!(findings[1].line, 2);
}

#[test]
fn invalid_utf8_is_replaced_and_the_scan_continues() {
    let findings = scan(b"\xff\xfe TODO: kept too\n// TODO: kept\n", DEFAULT_MAX_FILE_SIZE);
    assert_eq!(findings.len(), 2);
    assert_eq!(findings[0].line, 1);
    assert_eq!(findings[0].message, "kept too");
    assert_eq!(findings[1].line, 2);
    assert_eq!(findings[1].message, "kept");
    let findings = scan(b"// TODO: caf\xe9\n", DEFAULT_MAX_FILE_SIZE);
    assert_eq!(findings.len(), 1);
    assert_eq!(findings[0].message, "caf\u{FFFD}");
}

#[test]
fn last_line_without_newline_is_scanned() {
    let findings = scan(b"x\n// NOTE: end", DEFAULT_MAX_FILE_SIZE);
    assert_eq!(findings.len(), 1);
    assert_eq!(findings[0].line, 2);
}

#[test]
fn lines_end_at_line_breaks_with_or_without_carriage_returns() {
    let findings = scan(b"one\r\n\r\n// FIXME: three\r\n// TODO: four", DEFAULT_MAX_FILE_SIZE);
    assert_eq!(findings.len(), 2);
    assert_eq!(findings[0].line, 3);
    assert_eq!(findings[0].message, "three");
    assert_eq!(findings[1].line, 4);
    assert_eq!(findings[1].message, "four");
}
