use todork::blame::{apply_blame, format_age, format_age_at, parse_porcelain};
use todork::matcher::{Finding, Severity};

fn now_secs() -> i64 {
    std::time::SystemTime::now()
        .duration_since(std::time::UNIX_EPOCH)
        .unwrap()
        .as_secs() as i64
}

#[test]
fn format_age_today() {
    assert_eq!(format_age(now_secs()), "today");
}

#[test]
fn format_age_one_day() {
    assert_eq!(format_age(now_secs() - 86_400), "1 day ago");
}

#[test]
fn format_age_several_days() {
    assert_eq!(format_age(now_secs() - 5 * 86_400), "5 days ago");
}

#[test]
fn format_age_weeks() {
    assert_eq!(format_age(now_secs() - 21 * 86_400), "3 weeks ago");
}

#[test]
fn format_age_one_week_singular() {
    assert_eq!(format_age(now_secs() - 9 * 86_400), "1 week ago");
}

#[test]
fn format_age_months() {
    assert_eq!(format_age(now_secs() - 90 * 86_400), "3 months ago");
}

#[test]
fn format_age_one_month_singular() {
    assert_eq!(format_age(now_secs() - 30 * 86_400), "1 month ago");
}

#[test]
fn format_age_years() {
    assert_eq!(format_age(now_secs() - 2 * 365 * 86_400), "2 years ago");
}

#[test]
fn format_age_one_year_singular() {
    assert_eq!(format_age(now_secs() - 365 * 86_400), "1 year ago");
}

#[test]
fn format_age_at_boundaries() {
    let now = 1_700_000_000;
    assert_eq!(format_age_at(now, now), "today");
    assert_eq!(format_age_at(now, now + 500_000), "today");
    assert_eq!(format_age_at(now, now - 86_399), "today");
    assert_eq!(format_age_at(now, now - 6 * 86_400), "6 days ago");
    assert_eq!(format_age_at(now, now - 7 * 86_400), "1 week ago");
    assert_eq!(format_age_at(now, now - 29 * 86_400), "4 weeks ago");
    assert_eq!(format_age_at(now, now - 364 * 86_400), "12 months ago");
    assert_eq!(format_age_at(now, now - 730 * 86_400), "2 years ago");
}

const PORCELAIN: &[u8] = b"0123456789abcdef0123456789abcdef01234567 1 1 2\n\
author Alice\n\
author-mail <alice@example.com>\n\
author-time 1700000000\n\
summary first\n\
filename a.rs\n\
\tline one\n\
0123456789abcdef0123456789abcdef01234567 2 2\n\
\tline two\n\
fedcba9876543210fedcba9876543210fedcba98 3 3 1\n\
author Bob\n\
author-mail <>\n\
author-time 1600000000\n\
filename a.rs\n\
\tline three\n";

#[test]
fn porcelain_entries_per_line() {
    let map = parse_porcelain(PORCELAIN);
    assert_eq!(map.len(), 3);
    let one = &map[&1];
    assert_eq!(one.author, "Alice <alice@example.com>");
    assert_eq!(one.timestamp, 1_700_000_000);
    assert_eq!(one.commit, "0123456");
    // A repeated commit's header carries no author lines: its entry takes
    // what is known of that commit.
    let two = &map[&2];
    assert_eq!(two.author, "Alice <alice@example.com>");
    assert_eq!(two.timestamp, 1_700_000_000);
    assert_eq!(two.commit, "0123456");
    let three = &map[&3];
    assert_eq!(three.author, "Bob");
    assert_eq!(three.timestamp, 1_600_000_000);
    assert_eq!(three.commit, "fedcba9");
}

#[test]
fn porcelain_repeated_commit_keeps_its_author() {
    let h = "0123456789abcdef0123456789abcdef01234567";
    let out = format!(
        "{h} 1 1 2\nauthor Test Author\nauthor-mail <author@test.com>\nauthor-time 1700000000\nfilename a.rs\n\t// TODO: one\n{h} 2 2\n\t// FIXME: two\n"
    );
    let map = parse_porcelain(out.as_bytes());
    for line in [1usize, 2] {
        assert_eq!(map[&line].author, "Test Author <author@test.com>");
        assert_eq!(map[&line].timestamp, 1_700_000_000);
        assert_eq!(map[&line].commit, "0123456");
    }
}

#[test]
fn porcelain_empty_output_gives_no_entries() {
    assert!(parse_porcelain(b"").is_empty());
    assert!(parse_porcelain(b"not a header\n\n").is_empty());
}

fn finding(file: &str, line: usize) -> Finding {
    Finding {
        file: file.to_string(),
        line,
        column: 1,
        tag: "TODO".to_string(),
        severity: Severity::Warning,
        author: None,
        message: "m".to_string(),
        blame_author: None,
        blame_date: None,
        blame_commit: None,
    }
}

#[test]
fn apply_blame_fills_matching_lines_only() {
    let map = parse_porcelain(PORCELAIN);
    let mut fs = vec![finding("a.rs", 1), finding("a.rs", 9), finding("b.rs", 1)];
    apply_blame(&mut fs, "a.rs", &map);
    assert_eq!(fs[0].blame_author.as_deref(), Some("Alice <alice@example.com>"));
    assert_eq!(fs[0].blame_date, Some(1_700_000_000));
    assert_eq!(fs[0].blame_commit.as_deref(), Some("0123456"));
    assert_eq!(fs[1].blame_author, None);
    assert_eq!(fs[2].blame_author, None);
    assert_eq!(fs[2].blame_date, None);
}

#[test]
fn apply_blame_matches_the_same_path_written_otherwise() {
    let map = parse_porcelain(PORCELAIN);
    let mut fs = vec![finding("src/./a.rs", 1), finding("src/a.rs/", 1), finding("src/b.rs", 1)];
    apply_blame(&mut fs, "src//a.rs", &map);
    assert_eq!(fs[0].blame_commit.as_deref(), Some("0123456"));
    assert_eq!(fs[1].blame_commit.as_deref(), Some("0123456"));
    assert_eq!(fs[2].blame_commit, None);
}

#[test]
fn porcelain_header_with_bytes_that_are_not_text_adds_no_entry() {
    let map = parse_porcelain(b"0123456789abcdef0123456789abcdef01234567 1 \xff\n");
    assert!(map.is_empty());
    let map = parse_porcelain(b"0123456789abcdef0123456789abcdef01234567 1\n");
    assert!(map.is_empty());
    let map = parse_porcelain(b"0123456789abcdef0123456789abcdef01234567 1 7 1\n\xff\xfe\n");
    assert_eq!(map.len(), 1);
    assert_eq!(map[&7].commit, "0123456");
}

#[test]
fn porcelain_last_header_for_a_line_wins() {
    let out = b"0123456789abcdef0123456789abcdef01234567 1 3 1\n\
author A\n\
fedcba9876543210fedcba9876543210fedcba98 2 3 1\n\
author B\n";
    let map = parse_porcelain(out);
    assert_eq!(map.len(), 1);
    assert_eq!(map[&3].commit, "fedcba9");
    assert_eq!(map[&3].author, "B");
}
