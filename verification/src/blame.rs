//! Git blame enrichment: reading `git blame --porcelain` output, attaching
//! its entries to findings, and describing how old a commit is.
//!
//! Running `git` is left to the caller; this module works on its output.

use vstd::prelude::*;
use vstd::slice::slice_subrange;
use vstd::string::*;
use vstd::utf8::*;

use std::collections::HashMap;

use crate::matcher::{copy_opt, Finding, FindingView};
use crate::order::{paths_equal, same_path};
use crate::scanner::line_end;
use crate::text::{
    bytes_eq, chars_of, decimal, owned, parse_i64_exec, parse_usize_exec, push_char, push_decimal, push_str,
    str_trim, string_of,
};

verus! {

broadcast use vstd::std_specs::hash::group_hash_axioms;

// ── format_age ────────────────────────────────────────────────────────────────

/// `""` for one, `"s"` otherwise.
pub open spec fn plural(n: int) -> Seq<char> {
    if n == 1 {
        ""@
    } else {
        "s"@
    }
}

/// Whole days from `timestamp` to `now`, or 0 when `timestamp` is not in the past.
pub open spec fn age_days(now: int, timestamp: int) -> int {
    if now - timestamp > 0 {
        (now - timestamp) / 86_400
    } else {
        0
    }
}

/// How an age of `days` whole days is described.
///
/// | Range | Example |
/// |-------|---------|
/// | same day | `"today"` |
/// | 1 day | `"1 day ago"` |
/// | 2–6 days | `"5 days ago"` |
/// | 7–29 days | `"3 weeks ago"` |
/// | 30–364 days | `"8 months ago"` |
/// | 365+ days | `"2 years ago"` |
pub open spec fn age_text(days: int) -> Seq<char> {
    if days <= 0 {
        "today"@
    } else if days == 1 {
        "1 day ago"@
    } else if days < 7 {
        decimal(days as nat) + " days ago"@
    } else if days < 30 {
        decimal((days / 7) as nat) + " week"@ + plural(days / 7) + " ago"@
    } else if days < 365 {
        decimal((days / 30) as nat) + " month"@ + plural(days / 30) + " ago"@
    } else {
        decimal((days / 365) as nat) + " year"@ + plural(days / 365) + " ago"@
    }
}

/// `"<n> <unit>"` plus `"s"` when `n` is not one, plus `" ago"`.
fn count_ago(n: u64, unit: &str) -> (r: String)
    ensures
        r@ == decimal(n as nat) + unit@ + plural(n as int) + " ago"@,
{
    let mut r = String::new();
    push_decimal(&mut r, n);
    push_str(&mut r, unit);
    if n != 1 {
        push_str(&mut r, "s");
    }
    push_str(&mut r, " ago");
    proof {
        reveal_strlit("");
    }
    assert(r@ =~= decimal(n as nat) + unit@ + plural(n as int) + " ago"@);
    r
}

/// Describe the age of the Unix time `timestamp` as seen at the Unix time
/// `now`, in whole days, weeks, months or years.
pub fn format_age_at(now: i64, timestamp: i64) -> (r: String)
    ensures
        r@ == age_text(age_days(now as int, timestamp as int)),
{
    let diff: i128 = now as i128 - timestamp as i128;
    let days: u64 = if diff > 0 {
        (diff / 86_400) as u64
    } else {
        0
    };
    assert(days == age_days(now as int, timestamp as int));
    if days == 0 {
        owned("today")
    } else if days == 1 {
        owned("1 day ago")
    } else if days < 7 {
        let mut r = String::new();
        push_decimal(&mut r, days);
        push_str(&mut r, " days ago");
        r
    } else if days < 30 {
        count_ago(days / 7, " week")
    } else if days < 365 {
        count_ago(days / 30, " month")
    } else {
        count_ago(days / 365, " year")
    }
}

/// Calls `SystemTime::now().duration_since(UNIX_EPOCH)` and returns the
/// whole seconds (`Duration::as_secs`; zero when the clock reads before the
/// epoch).  What the clock reads is not stated.
#[verifier::external_body]
fn clock_seconds() -> u64 {
    std::time::SystemTime::now().duration_since(std::time::UNIX_EPOCH).unwrap_or_default().as_secs()
}

/// The current Unix time in whole seconds, never before the epoch (and
/// held at `i64::MAX` past its range).
pub(crate) fn unix_time_now() -> (r: i64)
    ensures
        r >= 0,
{
    let secs = clock_seconds();
    if secs > 9_223_372_036_854_775_807u64 {
        9_223_372_036_854_775_807i64
    } else {
        secs as i64
    }
}

/// Format a Unix timestamp as a human-readable age string, measured from
/// the current time: the description [`format_age_at`] gives for the time
/// the clock reads.
pub fn format_age(timestamp: i64) -> (r: String)
    ensures
        exists|now: i64| now >= 0 && r@ == age_text(age_days(now as int, timestamp as int)),
{
    let now = unix_time_now();
    format_age_at(now, timestamp)
}

// ── git blame --porcelain ─────────────────────────────────────────────────────

/// One line's blame: the author of the commit that last touched it (with
/// the e-mail in angle brackets when known), the commit's Unix time, and
/// the commit's short hash.
pub struct BlameEntry {
    pub author: String,
    pub timestamp: i64,
    pub commit: String,
}

/// The mathematical value of a [`BlameEntry`].
pub struct BlameEntryView {
    pub author: Seq<char>,
    pub timestamp: int,
    pub commit: Seq<char>,
}

impl View for BlameEntry {
    type V = BlameEntryView;

    open spec fn view(&self) -> BlameEntryView {
        BlameEntryView { author: self.author@, timestamp: self.timestamp as int, commit: self.commit@ }
    }
}

/// The views of the entries of a blame map.
pub open spec fn entries_view(m: Map<usize, BlameEntry>) -> Map<usize, BlameEntryView> {
    Map::new(|k: usize| m.contains_key(k), |k: usize| m[k]@)
}

/// What `String::from_utf8_lossy` makes of `bytes`: the text, with each
/// invalid sequence replaced by U+FFFD.
pub uninterp spec fn utf8_lossy(bytes: Seq<u8>) -> Seq<char>;

/// The text of `b`: `b` decoded when it is valid UTF-8, else what
/// `String::from_utf8_lossy` makes of it.
pub open spec fn lossy(b: Seq<u8>) -> Seq<char> {
    if valid_utf8(b) {
        decode_utf8(b)
    } else {
        utf8_lossy(b)
    }
}

/// Calls `String::from_utf8_lossy`: the named [`utf8_lossy`] text of `b`,
/// which is `b` decoded when `b` is valid UTF-8, as its documentation states.
#[verifier::external_body]
pub(crate) fn lossy_text(b: &[u8]) -> (r: String)
    ensures
        r@ == utf8_lossy(b@),
        valid_utf8(b@) ==> r@ == decode_utf8(b@),
{
    String::from_utf8_lossy(b).into_owned()
}

/// The pieces of `b` between `'\n'` bytes, from byte `s` on (the piece
/// after the last `'\n'` included, even when empty).
pub open spec fn pieces_from(b: Seq<u8>, s: int) -> Seq<Seq<u8>>
    decreases b.len() + 1 - s,
{
    if s < 0 || s > b.len() {
        seq![]
    } else {
        let e = line_end(b, s);
        if s <= e < b.len() {
            seq![b.subrange(s, e)] + pieces_from(b, e + 1)
        } else {
            seq![b.subrange(s, b.len() as int)]
        }
    }
}

/// Whether a byte is an ASCII hexadecimal digit.
pub open spec fn is_hex_byte(x: u8) -> bool {
    (0x30 <= x && x <= 0x39) || (0x41 <= x && x <= 0x46) || (0x61 <= x && x <= 0x66)
}

/// Whether a line is a hunk header: it starts with 40 hexadecimal digits.
pub open spec fn is_header(p: Seq<u8>) -> bool {
    p.len() >= 40 && forall|i: int| 0 <= i < 40 ==> #[trigger] is_hex_byte(p[i])
}

/// The short commit hash of a hunk header: its first seven characters.
pub open spec fn short_hash(p: Seq<u8>) -> Seq<char> {
    Seq::new(7, |i: int| p[i] as char)
}

/// The first index at or after `i` that is not white space, or `s.len()`.
pub open spec fn skip_ws(s: Seq<char>, i: int) -> int
    decreases s.len() - i,
{
    if i >= s.len() {
        s.len() as int
    } else if crate::text::is_whitespace(s[i]) {
        skip_ws(s, i + 1)
    } else {
        i
    }
}

/// The first index at or after `i` that is white space, or `s.len()`.
pub open spec fn word_end(s: Seq<char>, i: int) -> int
    decreases s.len() - i,
{
    if i >= s.len() {
        s.len() as int
    } else if crate::text::is_whitespace(s[i]) {
        i
    } else {
        word_end(s, i + 1)
    }
}

/// The white-space separated words of `s` from index `i` on.
pub open spec fn words_from(s: Seq<char>, i: int) -> Seq<Seq<char>>
    decreases s.len() - i,
{
    let a = skip_ws(s, i);
    if i < 0 || a < i || a >= s.len() {
        seq![]
    } else {
        let e = word_end(s, a);
        if a < e <= s.len() {
            seq![s.subrange(a, e)] + words_from(s, e)
        } else {
            seq![]
        }
    }
}

/// The final line number of a hunk header: its third word, as a number.
pub open spec fn header_line(p: Seq<u8>) -> Option<usize> {
    let w = words_from(lossy(p), 0);
    if w.len() >= 3 {
        match crate::text::parse_usize(w[2]) {
            Some(v) => Some(v as usize),
            None => None,
        }
    } else {
        None
    }
}

/// Whether `c` is an angle bracket.
pub open spec fn is_angle(c: char) -> bool {
    c == '<' || c == '>'
}

/// The first index at or after `i` that is not an angle bracket, or `s.len()`.
pub open spec fn angle_lead(s: Seq<char>, i: int) -> int
    decreases s.len() - i,
{
    if i >= s.len() {
        s.len() as int
    } else if is_angle(s[i]) {
        angle_lead(s, i + 1)
    } else {
        i
    }
}

/// The end of `s[lo..j]` once trailing angle brackets are dropped.
pub open spec fn angle_trail(s: Seq<char>, lo: int, j: int) -> int
    decreases j - lo,
{
    if j <= lo {
        lo
    } else if is_angle(s[j - 1]) {
        angle_trail(s, lo, j - 1)
    } else {
        j
    }
}

/// `s` without leading and trailing angle brackets.
pub open spec fn trim_angles(s: Seq<char>) -> Seq<char> {
    let a = angle_lead(s, 0);
    s.subrange(a, angle_trail(s, a, s.len() as int))
}

/// Whether `p` starts with `pre`.
pub open spec fn has_prefix(p: Seq<u8>, pre: Seq<u8>) -> bool {
    p.len() >= pre.len() && p.take(pre.len() as int) == pre
}

/// What is known of a commit: its full hash, author, e-mail and time.
pub type CommitInfo = (Seq<u8>, Seq<char>, Seq<char>, i64);

/// The state of the porcelain reader between lines: the hunk being read
/// (its final line number, author, e-mail, time, short and full hash), what
/// is known of the commits of earlier hunks, and the entries made so far.
pub struct HunkState {
    pub line: Option<usize>,
    pub author: Seq<char>,
    pub email: Seq<char>,
    pub timestamp: i64,
    pub commit: Seq<char>,
    pub hash: Seq<u8>,
    pub known: Seq<CommitInfo>,
    pub entries: Map<usize, BlameEntryView>,
}

/// The author, e-mail and time last recorded for the commit with full
/// hash `h`.
pub open spec fn find_commit(known: Seq<CommitInfo>, h: Seq<u8>) -> Option<(Seq<char>, Seq<char>, i64)>
    decreases known.len(),
{
    if known.len() == 0 {
        None
    } else if known.last().0 == h {
        Some((known.last().1, known.last().2, known.last().3))
    } else {
        find_commit(known.drop_last(), h)
    }
}

/// What is known of the commits once the hunk being read is over: its
/// commit's author, e-mail and time are recorded, when a hunk was begun.
pub open spec fn remember(st: HunkState) -> Seq<CommitInfo> {
    if st.hash.len() > 0 {
        st.known.push((st.hash, st.author, st.email, st.timestamp))
    } else {
        st.known
    }
}

/// The author as shown: the name, followed by the e-mail in angle brackets
/// when there is one.
pub open spec fn full_author(author: Seq<char>, email: Seq<char>) -> Seq<char> {
    if email.len() == 0 {
        author
    } else {
        author + " <"@ + email + ">"@
    }
}

/// Records the hunk being read as the entry of its line, if it has one.
pub open spec fn flush_state(st: HunkState) -> HunkState {
    match st.line {
        Some(ln) => HunkState {
            line: None,
            entries: st.entries.insert(
                ln,
                BlameEntryView {
                    author: full_author(st.author, st.email),
                    timestamp: st.timestamp as int,
                    commit: st.commit,
                },
            ),
            ..st
        },
        None => st,
    }
}

/// The reader's state after one more line `p` of porcelain output.
pub open spec fn porcelain_step(st: HunkState, p: Seq<u8>) -> HunkState {
    if p.len() == 0 {
        st
    } else if is_header(p) {
        // git gives a commit's author lines at its first hunk only: a later
        // hunk of the same commit starts with what is known of it.
        let known = remember(st);
        let h = p.take(40);
        let (author, email, timestamp) = match find_commit(known, h) {
            Some(info) => info,
            None => (seq![], seq![], 0i64),
        };
        HunkState {
            line: header_line(p),
            author,
            email,
            timestamp,
            commit: short_hash(p),
            hash: h,
            known,
            entries: flush_state(st).entries,
        }
    } else if has_prefix(p, "author ".spec_bytes()) {
        HunkState { author: lossy(p.skip(7)), ..st }
    } else if has_prefix(p, "author-mail ".spec_bytes()) {
        HunkState { email: trim_angles(lossy(p.skip(12))), ..st }
    } else if has_prefix(p, "author-time ".spec_bytes()) {
        match crate::text::parse_i64(crate::text::trim(lossy(p.skip(12)))) {
            Some(t) => HunkState { timestamp: t as i64, ..st },
            None => st,
        }
    } else {
        st
    }
}

/// The reader's state before any line.
pub open spec fn initial_state() -> HunkState {
    HunkState {
        line: None,
        author: seq![],
        email: seq![],
        timestamp: 0,
        commit: seq![],
        hash: seq![],
        known: seq![],
        entries: Map::empty(),
    }
}

/// The reader's state after the lines `ps`.
pub open spec fn porcelain_run(ps: Seq<Seq<u8>>) -> HunkState
    decreases ps.len(),
{
    if ps.len() == 0 {
        initial_state()
    } else {
        porcelain_step(porcelain_run(ps.drop_last()), ps.last())
    }
}

/// The blame entries in `git blame --porcelain` output, by final line number.
pub open spec fn porcelain_entries(out: Seq<u8>) -> Map<usize, BlameEntryView> {
    flush_state(porcelain_run(pieces_from(out, 0))).entries
}

/// Whether some hunk header among the lines `ps` gives the final line `n`.
pub open spec fn has_header_line(ps: Seq<Seq<u8>>, n: usize) -> bool
    decreases ps.len(),
{
    if ps.len() == 0 {
        false
    } else {
        (is_header(ps.last()) && header_line(ps.last()) == Some(n)) || has_header_line(ps.drop_last(), n)
    }
}

/// The short hash of the last hunk header among the lines `ps` that gives
/// the final line `n`.
pub open spec fn commit_of_line(ps: Seq<Seq<u8>>, n: usize) -> Seq<char>
    decreases ps.len(),
{
    if ps.len() == 0 {
        seq![]
    } else if is_header(ps.last()) && header_line(ps.last()) == Some(n) {
        short_hash(ps.last())
    } else {
        commit_of_line(ps.drop_last(), n)
    }
}

/// What the reader's state after the lines `ps` holds of headers: the
/// lines recorded and the line of the hunk being read are those the
/// headers give, each with the short hash of its last header.
spec fn keys_follow_headers(st: HunkState, ps: Seq<Seq<u8>>) -> bool {
    &&& forall|n: usize| (#[trigger] st.entries.contains_key(n) || st.line == Some(n)) <==> has_header_line(ps, n)
    &&& st.line matches Some(l) ==> st.commit == commit_of_line(ps, l)
    &&& forall|n: usize| #[trigger] st.entries.contains_key(n) && st.line != Some(n) ==> st.entries[n].commit == commit_of_line(ps, n)
}

proof fn lemma_run_keys(ps: Seq<Seq<u8>>)
    ensures
        keys_follow_headers(porcelain_run(ps), ps),
    decreases ps.len(),
{
    if ps.len() > 0 {
        let q = ps.drop_last();
        let p = ps.last();
        lemma_run_keys(q);
        let st = porcelain_run(q);
        assert(porcelain_run(ps) == porcelain_step(st, p));
        assert forall|n: usize| !(is_header(p) && header_line(p) == Some(n)) implies has_header_line(ps, n)
            == has_header_line(q, n) && commit_of_line(ps, n) == commit_of_line(q, n) by {}
        if p.len() > 0 && is_header(p) {
            let fl = flush_state(st);
            assert forall|n: usize| fl.entries.contains_key(n) <==> (st.entries.contains_key(n) || st.line == Some(n)) by {}
        } else {
            assert(p.len() == 0 ==> !is_header(p));
        }
    }
}

/// The entries of `git blame --porcelain` output are keyed by the final
/// line numbers its hunk headers give (a header is a line that starts with
/// 40 hex digits; its third word is the final line): a line number is a key
/// exactly when some header gives it, and its entry's commit is the short
/// hash of the last header that gives it.  So output without headers has
/// no entries, and a header whose third word is missing or not a number
/// adds none.
pub proof fn porcelain_keys_come_from_headers(out: Seq<u8>, n: usize)
    ensures
        porcelain_entries(out).contains_key(n) <==> has_header_line(pieces_from(out, 0), n),
        porcelain_entries(out).contains_key(n) ==> porcelain_entries(out)[n].commit == commit_of_line(
            pieces_from(out, 0),
            n,
        ),
{
    let ps = pieces_from(out, 0);
    lemma_run_keys(ps);
    let st = porcelain_run(ps);
    assert(porcelain_entries(out) == flush_state(st).entries);
    assert((st.entries.contains_key(n) || st.line == Some(n)) <==> has_header_line(ps, n));
    if st.entries.contains_key(n) && st.line != Some(n) {
        assert(st.entries[n].commit == commit_of_line(ps, n));
    }
}

/// Record the hunk being read as the entry of its line, if it has one,
/// and forget its line.
pub fn flush_entry(
    map: &mut HashMap<usize, BlameEntry>,
    line: &mut Option<usize>,
    author: &str,
    email: &str,
    timestamp: i64,
    commit: &str,
)
    ensures
        match *old(line) {
            Some(ln) => entries_view(final(map)@) == entries_view(old(map)@).insert(
                ln,
                BlameEntryView {
                    author: full_author(author@, email@),
                    timestamp: timestamp as int,
                    commit: commit@,
                },
            ),
            None => final(map)@ == old(map)@,
        },
        *final(line) is None,
{
    if let Some(ln) = *line {
        let shown = if email.is_empty() {
            owned(author)
        } else {
            let mut a = owned(author);
            push_str(&mut a, " <");
            push_str(&mut a, email);
            push_str(&mut a, ">");
            a
        };
        let ghost before = map@;
        map.insert(ln, BlameEntry { author: shown, timestamp, commit: owned(commit) });
        assert(entries_view(map@) =~= entries_view(before).insert(
            ln,
            BlameEntryView {
                author: full_author(author@, email@),
                timestamp: timestamp as int,
                commit: commit@,
            },
        ));
        *line = None;
    }
}

/// The byte lengths of the porcelain field prefixes.
proof fn lemma_prefix_lengths()
    ensures
        "author ".spec_bytes().len() == 7,
        "author-mail ".spec_bytes().len() == 12,
        "author-time ".spec_bytes().len() == 12,
{
    broadcast use is_ascii_spec_bytes;

    reveal_strlit("author ");
    reveal_strlit("author-mail ");
    reveal_strlit("author-time ");
    assert(is_ascii("author "));
    assert(is_ascii("author-mail "));
    assert(is_ascii("author-time "));
}

fn starts_with(p: &[u8], pre: &[u8]) -> (r: bool)
    ensures
        r == has_prefix(p@, pre@),
{
    if p.len() < pre.len() {
        return false;
    }
    let mut i: usize = 0;
    while i < pre.len()
        invariant
            0 <= i <= pre@.len() <= p@.len(),
            forall|j: int| 0 <= j < i ==> p@[j] == pre@[j],
        decreases pre@.len() - i,
    {
        if p[i] != pre[i] {
            assert(p@.take(pre@.len() as int)[i as int] != pre@[i as int]);
            return false;
        }
        i += 1;
    }
    assert(p@.take(pre@.len() as int) =~= pre@);
    true
}

fn is_header_exec(p: &[u8]) -> (r: bool)
    ensures
        r == is_header(p@),
{
    if p.len() < 40 {
        return false;
    }
    let mut i: usize = 0;
    while i < 40
        invariant
            0 <= i <= 40 <= p@.len(),
            forall|j: int| 0 <= j < i ==> #[trigger] is_hex_byte(p@[j]),
        decreases 40 - i,
    {
        let x = p[i];
        if !((0x30 <= x && x <= 0x39) || (0x41 <= x && x <= 0x46) || (0x61 <= x && x <= 0x66)) {
            assert(!is_hex_byte(p@[i as int]));
            return false;
        }
        i += 1;
    }
    true
}

fn short_hash_exec(p: &[u8]) -> (r: String)
    requires
        p@.len() >= 7,
    ensures
        r@ == short_hash(p@),
{
    let mut r = String::new();
    let mut i: usize = 0;
    while i < 7
        invariant
            0 <= i <= 7 <= p@.len(),
            r@ == Seq::new(i as nat, |j: int| p@[j] as char),
        decreases 7 - i,
    {
        push_char(&mut r, p[i] as char);
        assert(r@ =~= Seq::new((i + 1) as nat, |j: int| p@[j] as char));
        i += 1;
    }
    r
}

fn is_ws_exec(c: char) -> (r: bool)
    ensures
        r == crate::text::is_whitespace(c),
{
    ('\u{9}' <= c && c <= '\u{d}') || c == ' ' || c == '\u{85}' || c == '\u{a0}' || c == '\u{1680}'
        || ('\u{2000}' <= c && c <= '\u{200a}') || c == '\u{2028}' || c == '\u{2029}' || c
        == '\u{202f}' || c == '\u{205f}' || c == '\u{3000}'
}

/// The span of word `n` (from 0) of `cs`, when there is one.
fn nth_word(cs: &Vec<char>, n: usize) -> (r: Option<(usize, usize)>)
    ensures
        r matches Some((a, e)) ==> a <= e <= cs@.len() && words_from(cs@, 0).len() > n
            && words_from(cs@, 0)[n as int] == cs@.subrange(a as int, e as int),
        r is None ==> words_from(cs@, 0).len() <= n,
{
    let ghost s = cs@;
    let ghost mut done: Seq<Seq<char>> = seq![];
    let len = cs.len();
    let mut i: usize = 0;
    let mut count: usize = 0;
    while i < len
        invariant
            0 <= i <= len,
            len == s.len(),
            s == cs@,
            count == done.len(),
            count <= n,
            done + words_from(s, i as int) == words_from(s, 0),
        decreases len - i,
    {
        let mut a: usize = i;
        while a < len && is_ws_exec(cs[a])
            invariant
                i <= a <= len,
                len == s.len(),
                s == cs@,
                skip_ws(s, a as int) == skip_ws(s, i as int),
            decreases len - a,
        {
            a += 1;
        }
        if a == len {
            assert(words_from(s, i as int) == Seq::<Seq<char>>::empty());
            return None;
        }
        let mut e: usize = a;
        while e < len && !is_ws_exec(cs[e])
            invariant
                a <= e <= len,
                a < len,
                len == s.len(),
                s == cs@,
                word_end(s, e as int) == word_end(s, a as int),
                e > a || !crate::text::is_whitespace(s[a as int]),
            decreases len - e,
        {
            e += 1;
        }
        assert(word_end(s, a as int) == e);
        assert(words_from(s, i as int) == seq![s.subrange(a as int, e as int)] + words_from(
            s,
            e as int,
        ));
        if count == n {
            assert(words_from(s, 0)[n as int] == s.subrange(a as int, e as int));
            return Some((a, e));
        }
        proof {
            let old_done = done;
            done = done.push(s.subrange(a as int, e as int));
            assert(done + words_from(s, e as int) =~= old_done + words_from(s, i as int));
        }
        count += 1;
        i = e;
    }
    assert(words_from(s, len as int) == Seq::<Seq<char>>::empty());
    assert(done =~= words_from(s, 0));
    None
}

/// The characters `cs[a..e]`.
fn sub_chars(cs: &Vec<char>, a: usize, e: usize) -> (r: Vec<char>)
    requires
        a <= e <= cs@.len(),
    ensures
        r@ == cs@.subrange(a as int, e as int),
{
    let mut r: Vec<char> = Vec::new();
    let mut i: usize = a;
    while i < e
        invariant
            a <= i <= e <= cs@.len(),
            r@ == cs@.subrange(a as int, i as int),
        decreases e - i,
    {
        r.push(cs[i]);
        assert(r@ =~= cs@.subrange(a as int, i + 1));
        i += 1;
    }
    r
}

fn header_line_exec(p: &[u8]) -> (r: Option<usize>)
    ensures
        r == header_line(p@),
{
    let text = lossy_text(p);
    let cs = chars_of(text.as_str());
    match nth_word(&cs, 2) {
        Some((a, e)) => {
            let w = sub_chars(&cs, a, e);
            parse_usize_exec(&w)
        },
        None => None,
    }
}

fn trim_angles_exec(s: &str) -> (r: String)
    ensures
        r@ == trim_angles(s@),
{
    let cs = chars_of(s);
    let len = cs.len();
    let mut a: usize = 0;
    while a < len && (cs[a] == '<' || cs[a] == '>')
        invariant
            0 <= a <= len,
            len == cs@.len(),
            angle_lead(cs@, a as int) == angle_lead(cs@, 0),
        decreases len - a,
    {
        a += 1;
    }
    assert(angle_lead(cs@, 0) == a);
    let mut e: usize = len;
    while e > a && (cs[e - 1] == '<' || cs[e - 1] == '>')
        invariant
            a <= e <= len,
            len == cs@.len(),
            angle_trail(cs@, a as int, e as int) == angle_trail(cs@, a as int, len as int),
        decreases e,
    {
        e -= 1;
    }
    assert(angle_trail(cs@, a as int, len as int) == e);
    string_of(&cs, a, e)
}

/// The views of what is known of commits.
pub open spec fn known_view(k: Seq<(Vec<u8>, String, String, i64)>) -> Seq<CommitInfo> {
    k.map_values(|x: (Vec<u8>, String, String, i64)| (x.0@, x.1@, x.2@, x.3))
}

/// A copy of `b`.
fn copy_bytes(b: &[u8]) -> (r: Vec<u8>)
    ensures
        r@ == b@,
{
    let mut r: Vec<u8> = Vec::new();
    let mut i: usize = 0;
    while i < b.len()
        invariant
            0 <= i <= b@.len(),
            r@ == b@.take(i as int),
        decreases b@.len() - i,
    {
        r.push(b[i]);
        assert(r@ =~= b@.take(i + 1));
        i += 1;
    }
    assert(b@.take(b@.len() as int) =~= b@);
    r
}

/// The position of the last commit recorded with full hash `h`.
fn find_commit_exec(known: &Vec<(Vec<u8>, String, String, i64)>, h: &[u8]) -> (r: Option<usize>)
    ensures
        match find_commit(known_view(known@), h@) {
            Some(info) => r matches Some(k) && k < known@.len() && info == (
                known@[k as int].1@,
                known@[k as int].2@,
                known@[k as int].3,
            ),
            None => r is None,
        },
{
    let ghost kv = known_view(known@);
    let mut j: usize = known.len();
    assert(kv.take(j as int) =~= kv);
    while j > 0
        invariant
            0 <= j <= known@.len(),
            kv == known_view(known@),
            find_commit(kv, h@) == find_commit(kv.take(j as int), h@),
        decreases j,
    {
        let ghost t = kv.take(j as int);
        assert(t.last() == kv[j - 1]);
        assert(t.drop_last() =~= kv.take(j - 1));
        if bytes_eq(known[j - 1].0.as_slice(), h) {
            return Some(j - 1);
        }
        j -= 1;
    }
    assert(kv.take(0) =~= Seq::<CommitInfo>::empty());
    None
}

/// Parse `git blame --porcelain` output into a map of
/// line-number → (author, timestamp, commit).
pub fn parse_porcelain(stdout: &[u8]) -> (r: HashMap<usize, BlameEntry>)
    ensures
        entries_view(r@) == porcelain_entries(stdout@),
{
    let mut result: HashMap<usize, BlameEntry> = HashMap::new();
    let mut cur_line: Option<usize> = None;
    let mut author = String::new();
    let mut email = String::new();
    let mut timestamp: i64 = 0;
    let mut commit = String::new();
    let mut hash: Vec<u8> = Vec::new();
    let mut known: Vec<(Vec<u8>, String, String, i64)> = Vec::new();
    let ghost b = stdout@;
    let ghost mut done: Seq<Seq<u8>> = seq![];
    let len = stdout.len();
    let mut s: usize = 0;
    assert(entries_view(result@) =~= Map::<usize, BlameEntryView>::empty());
    assert(known_view(known@) =~= Seq::<CommitInfo>::empty());
    assert(hash@ =~= Seq::<u8>::empty());
    loop
        invariant_except_break
            done + pieces_from(b, s as int) == pieces_from(b, 0),
        invariant
            0 <= s <= len,
            len == b.len(),
            b == stdout@,
            (HunkState {
                line: cur_line,
                author: author@,
                email: email@,
                timestamp,
                commit: commit@,
                hash: hash@,
                known: known_view(known@),
                entries: entries_view(result@),
            }) == porcelain_run(done),
        ensures
            done == pieces_from(b, 0),
        decreases len - s,
    {
        let mut e: usize = s;
        while e < len && stdout[e] != 10
            invariant
                s <= e <= len,
                len == b.len(),
                b == stdout@,
                line_end(b, e as int) == line_end(b, s as int),
            decreases len - e,
        {
            e += 1;
        }
        let piece = slice_subrange(stdout, s, e);
        let ghost st = porcelain_run(done);
        proof {
            lemma_prefix_lengths();
        }
        if piece.len() == 0 {
        } else if is_header_exec(piece) {
            flush_entry(
                &mut result,
                &mut cur_line,
                author.as_str(),
                email.as_str(),
                timestamp,
                commit.as_str(),
            );
            if hash.len() > 0 {
                let ghost before = known@;
                known.push((copy_bytes(hash.as_slice()), owned(author.as_str()), owned(email.as_str()), timestamp));
                assert(known_view(known@) =~= known_view(before).push((hash@, author@, email@, timestamp)));
            }
            commit = short_hash_exec(piece);
            cur_line = header_line_exec(piece);
            hash = copy_bytes(slice_subrange(piece, 0, 40));
            assert(hash@ =~= piece@.take(40));
            match find_commit_exec(&known, hash.as_slice()) {
                Some(k) => {
                    author = owned(known[k].1.as_str());
                    email = owned(known[k].2.as_str());
                    timestamp = known[k].3;
                },
                None => {
                    author = String::new();
                    email = String::new();
                    timestamp = 0;
                },
            }
        } else if starts_with(piece, "author ".as_bytes()) {
            author = lossy_text(slice_subrange(piece, 7, piece.len()));
            assert(piece@.subrange(7, piece@.len() as int) =~= piece@.skip(7));
        } else if starts_with(piece, "author-mail ".as_bytes()) {
            let raw = lossy_text(slice_subrange(piece, 12, piece.len()));
            assert(piece@.subrange(12, piece@.len() as int) =~= piece@.skip(12));
            email = trim_angles_exec(raw.as_str());
        } else if starts_with(piece, "author-time ".as_bytes()) {
            let raw = lossy_text(slice_subrange(piece, 12, piece.len()));
            assert(piece@.subrange(12, piece@.len() as int) =~= piece@.skip(12));
            let cs = chars_of(str_trim(raw.as_str()));
            match parse_i64_exec(&cs) {
                Some(t) => {
                    timestamp = t;
                },
                None => {},
            }
        }
        proof {
            let old_done = done;
            done = done.push(piece@);
            assert(done.drop_last() =~= old_done);
            assert(porcelain_run(done) == porcelain_step(st, piece@));
            if e < len {
                assert(pieces_from(b, s as int) == seq![piece@] + pieces_from(b, e + 1));
                assert(done + pieces_from(b, e + 1) =~= old_done + pieces_from(b, s as int));
            } else {
                assert(pieces_from(b, s as int) == seq![piece@]);
                assert(done =~= old_done + pieces_from(b, s as int));
            }
        }
        if e >= len {
            break;
        }
        s = e + 1;
    }
    flush_entry(
        &mut result,
        &mut cur_line,
        author.as_str(),
        email.as_str(),
        timestamp,
        commit.as_str(),
    );
    result
}

// ── Attaching blame to findings ───────────────────────────────────────────────

/// `f` with the blame of its line attached, when `f` is in `file` and
/// `entries` has an entry for its line.
pub open spec fn blamed(f: FindingView, file: Seq<char>, entries: Map<usize, BlameEntryView>) -> FindingView {
    if same_path(f.file, file) && 0 <= f.line <= usize::MAX && entries.contains_key(f.line as usize) {
        let e = entries[f.line as usize];
        FindingView {
            blame_author: Some(e.author),
            blame_date: Some(e.timestamp),
            blame_commit: Some(e.commit),
            ..f
        }
    } else {
        f
    }
}

/// Attach the blame entries of `file` to the findings in that file whose
/// line has an entry; all other findings stay as they are.
pub fn apply_blame(findings: &mut Vec<Finding>, file: &str, entries: &HashMap<usize, BlameEntry>)
    ensures
        final(findings)@.len() == old(findings)@.len(),
        forall|i: int|
            0 <= i < old(findings)@.len() ==> #[trigger] final(findings)@[i]@ == blamed(
                old(findings)@[i]@,
                file@,
                entries_view(entries@),
            ),
{
    let ghost orig = findings@;
    let mut i: usize = 0;
    while i < findings.len()
        invariant
            0 <= i <= findings@.len(),
            findings@.len() == orig.len(),
            forall|j: int| 0 <= j < i ==> #[trigger] findings@[j]@ == blamed(
                orig[j]@,
                file@,
                entries_view(entries@),
            ),
            forall|j: int| i <= j < orig.len() ==> #[trigger] findings@[j] == orig[j],
        decreases findings@.len() - i,
    {
        if paths_equal(findings[i].file.as_str(), file) {
            let line = findings[i].line;
            match entries.get(&line) {
                Some(entry) => {
                    let f = &findings[i];
                    let updated = Finding {
                        file: f.file.clone(),
                        line: f.line,
                        column: f.column,
                        tag: f.tag.clone(),
                        severity: f.severity,
                        author: copy_opt(&f.author),
                        message: f.message.clone(),
                        blame_author: Some(entry.author.clone()),
                        blame_date: Some(entry.timestamp),
                        blame_commit: Some(entry.commit.clone()),
                    };
                    assert(updated@ == blamed(orig[i as int]@, file@, entries_view(entries@)));
                    findings.set(i, updated);
                },
                None => {},
            }
        }
        i += 1;
    }
}

} // verus!
