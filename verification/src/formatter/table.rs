//! Fixed-width table output.
//!
//! Columns: FILE  LINE  TAG  SEVERITY  MESSAGE
//! When blame data is present, appends: BLAME AUTHOR  AGE  COMMIT
//!
//! Example (no blame):
//! ```text
//! FILE              LINE  TAG    SEVERITY  MESSAGE
//! ────────────────  ────  ─────  ────────  ─────────────────────────────
//! src/main.rs         12  TODO   warning   handle this edge case
//! src/lib.rs          42  FIXME  error     this is broken and needs fix...
//! ```

use vstd::prelude::*;
use vstd::string::StringSliceAdditionalSpecFns;
use vstd::utf8::*;

use super::github::{lacks, lemma_lacks_concat};
use super::text::{severity_style, severity_style_exec};
use super::{
    bold, dimmed, fg, file_total, lemma_ends_with_summary, lemma_texts_concat, lemma_texts_one, plain, push_plain, push_styled,
    push_summary, segment_views, styled, summary_segments, summary_text, texts, Color, Formatter, Segment,
    SegmentView, Style,
};
use crate::blame::{age_days, age_text, format_age_at, unix_time_now};
use crate::matcher::{finding_views, Finding, FindingView, Severity};
use crate::text::{chars_of, decimal, owned, push_char, push_decimal, push_str, string_of};

verus! {

broadcast use vstd::utf8::is_ascii_chars_encode_utf8;

// ── Widths and cells ──────────────────────────────────────────────────────────

/// The number of bytes of the UTF-8 encoding of `s`.
pub open spec fn byte_len(s: Seq<char>) -> nat {
    encode_utf8(s).len()
}

/// The largest of `s`, or 0 when `s` is empty.
pub open spec fn max_of(s: Seq<int>) -> int
    decreases s.len(),
{
    if s.len() == 0 {
        0
    } else if s.last() > max_of(s.drop_last()) {
        s.last()
    } else {
        max_of(s.drop_last())
    }
}

/// The larger of two integers.
pub open spec fn larger(a: int, b: int) -> int {
    if a >= b {
        a
    } else {
        b
    }
}

/// The smaller of two integers.
pub open spec fn smaller(a: int, b: int) -> int {
    if a <= b {
        a
    } else {
        b
    }
}

/// Unsigned values as integers.
pub open spec fn ints(s: Seq<usize>) -> Seq<int> {
    s.map_values(|v: usize| v as int)
}

/// Width of the widest item, floored to the header width (its length in
/// bytes).
pub fn col_width(header: &str, values: &[usize]) -> (r: usize)
    ensures
        r == larger(max_of(ints(values@)), header.len() as int),
{
    let mut m: usize = 0;
    let mut i: usize = 0;
    while i < values.len()
        invariant
            0 <= i <= values@.len(),
            m == max_of(ints(values@.take(i as int))),
        decreases values@.len() - i,
    {
        assert(ints(values@.take(i + 1)).drop_last() =~= ints(values@.take(i as int)));
        if values[i] > m {
            m = values[i];
        }
        i += 1;
    }
    assert(values@.take(values@.len() as int) =~= values@);
    if m < header.len() {
        header.len()
    } else {
        m
    }
}

proof fn lemma_decimal_len(n: nat)
    ensures
        1 <= decimal(n).len() <= n + 1,
    decreases n,
{
    if n >= 10 {
        lemma_decimal_len(n / 10);
    }
}

/// Number of decimal digits in `n`.
pub fn digit_count(n: usize) -> (r: usize)
    ensures
        r == decimal(n as nat).len(),
    decreases n,
{
    proof {
        lemma_decimal_len(n as nat);
        lemma_decimal_len((n / 10) as nat);
    }
    if n < 10 {
        1
    } else {
        digit_count(n / 10) + 1
    }
}

/// The word for a severity in the SEVERITY column.
pub open spec fn severity_text(s: Severity) -> Seq<char> {
    match s {
        Severity::Error => "error"@,
        Severity::Warning => "warning"@,
        Severity::Info => "info"@,
    }
}

pub fn severity_str(s: Severity) -> (r: &'static str)
    ensures
        r@ == severity_text(s),
{
    match s {
        Severity::Error => "error",
        Severity::Warning => "warning",
        Severity::Info => "info",
    }
}

/// `s` cut to `max` characters, its end replaced by `"..."` when it was
/// longer.
pub open spec fn truncated(s: Seq<char>, max: nat) -> Seq<char> {
    if s.len() <= max {
        s
    } else {
        s.take(
            if max >= 3 {
                max - 3
            } else {
                0
            },
        ) + "..."@
    }
}

/// Truncate to `max` chars, appending `...` if the string was longer.
pub fn truncate(s: &str, max: usize) -> (r: String)
    ensures
        r@ == truncated(s@, max as nat),
{
    let cs = chars_of(s);
    if cs.len() <= max {
        owned(s)
    } else {
        let keep: usize = if max >= 3 {
            max - 3
        } else {
            0
        };
        let mut r = string_of(&cs, 0, keep);
        push_str(&mut r, "...");
        assert(cs@.subrange(0, keep as int) =~= s@.take(keep as int));
        r
    }
}

/// `n` copies of `c`.
pub open spec fn repeated(c: char, n: nat) -> Seq<char> {
    Seq::new(n, |i: int| c)
}

fn push_repeated(r: &mut String, c: char, n: usize)
    ensures
        final(r)@ == old(r)@ + repeated(c, n as nat),
{
    let mut i: usize = 0;
    while i < n
        invariant
            0 <= i <= n,
            r@ == old(r)@ + repeated(c, i as nat),
        decreases n - i,
    {
        push_char(r, c);
        assert(r@ =~= old(r)@ + repeated(c, (i + 1) as nat));
        i += 1;
    }
}

/// A horizontal rule of `n` Unicode box-drawing dashes.
pub fn dash(n: usize) -> (r: String)
    ensures
        r@ == repeated('\u{2500}', n as nat),
{
    let mut r = String::new();
    push_repeated(&mut r, '\u{2500}', n);
    assert(r@ =~= repeated('\u{2500}', n as nat));
    r
}

/// `s` followed by spaces up to `w` characters.
pub open spec fn pad_right(s: Seq<char>, w: nat) -> Seq<char> {
    if s.len() < w {
        s + repeated(' ', (w - s.len()) as nat)
    } else {
        s
    }
}

/// `s` after spaces up to `w` characters.
pub open spec fn pad_left(s: Seq<char>, w: nat) -> Seq<char> {
    if s.len() < w {
        repeated(' ', (w - s.len()) as nat) + s
    } else {
        s
    }
}

/// Appends `s` left-aligned in a field of `w` characters (`{:<w$}`).
fn push_padded_right(r: &mut String, s: &str, w: usize)
    ensures
        final(r)@ == old(r)@ + pad_right(s@, w as nat),
{
    let n = chars_of(s).len();
    push_str(r, s);
    if n < w {
        push_repeated(r, ' ', w - n);
    }
    assert(r@ =~= old(r)@ + pad_right(s@, w as nat));
}

/// Appends `s` right-aligned in a field of `w` characters (`{:>w$}`).
fn push_padded_left(r: &mut String, s: &str, w: usize)
    ensures
        final(r)@ == old(r)@ + pad_left(s@, w as nat),
{
    let n = chars_of(s).len();
    if n < w {
        push_repeated(r, ' ', w - n);
    }
    push_str(r, s);
    assert(r@ =~= old(r)@ + pad_left(s@, w as nat));
}

/// The TAG cell: the tag, with the author in parentheses when there is one.
pub open spec fn tag_cell(f: FindingView) -> Seq<char> {
    match f.author {
        Some(a) => f.tag + "("@ + a + ")"@,
        None => f.tag,
    }
}

/// The width the TAG cell asks for, in bytes.
pub open spec fn tag_width(f: FindingView) -> nat {
    match f.author {
        Some(a) => byte_len(f.tag) + byte_len(a) + 2,
        None => byte_len(f.tag),
    }
}

/// An optional text, or `"-"` when absent.
pub open spec fn or_dash(o: Option<Seq<char>>) -> Seq<char> {
    match o {
        Some(s) => s,
        None => "-"@,
    }
}

/// The AGE cell: the commit's age seen at Unix time `now`, or `"-"`.
pub open spec fn age_cell(f: FindingView, now: int) -> Seq<char> {
    match f.blame_date {
        Some(d) => age_text(age_days(now, d)),
        None => "-"@,
    }
}

/// Whether some finding carries a blame author.
pub open spec fn has_blame(fs: Seq<FindingView>) -> bool {
    exists|i: int| 0 <= i < fs.len() && (#[trigger] fs[i]).blame_author is Some
}

/// The widths of the table's columns, in characters.
pub struct ColumnWidths {
    pub file: nat,
    pub line: nat,
    pub tag: nat,
    pub sev: nat,
    pub msg: nat,
    pub blame: nat,
    pub age: nat,
    pub commit: nat,
}

/// The widest of `values`, floored to `header`.
pub open spec fn widest(values: Seq<int>, header: int) -> nat {
    larger(max_of(values), header) as nat
}

/// The FILE cells' widths: the paths' lengths in bytes.
pub open spec fn file_widths(fs: Seq<FindingView>) -> Seq<int> {
    fs.map_values(|f: FindingView| byte_len(f.file) as int)
}

/// The LINE cells' widths: the numbers of digits.
pub open spec fn line_widths(fs: Seq<FindingView>) -> Seq<int> {
    fs.map_values(|f: FindingView| decimal(f.line as nat).len() as int)
}

/// The TAG cells' widths, in bytes.
pub open spec fn tag_widths(fs: Seq<FindingView>) -> Seq<int> {
    fs.map_values(|f: FindingView| tag_width(f) as int)
}

/// The SEVERITY cells' widths.
pub open spec fn sev_widths(fs: Seq<FindingView>) -> Seq<int> {
    fs.map_values(|f: FindingView| severity_text(f.severity).len() as int)
}

/// The MESSAGE cells' widths, in characters.
pub open spec fn msg_widths(fs: Seq<FindingView>) -> Seq<int> {
    fs.map_values(|f: FindingView| f.message.len() as int)
}

/// The BLAME AUTHOR cells' widths, in characters.
pub open spec fn blame_widths(fs: Seq<FindingView>) -> Seq<int> {
    fs.map_values(|f: FindingView| or_dash(f.blame_author).len() as int)
}

/// The AGE cells' widths (the ages are ASCII, so characters and bytes agree).
pub open spec fn age_widths(fs: Seq<FindingView>, now: int) -> Seq<int> {
    fs.map_values(|f: FindingView| age_cell(f, now).len() as int)
}

/// The COMMIT cells' widths, in bytes.
pub open spec fn commit_widths(fs: Seq<FindingView>) -> Seq<int> {
    fs.map_values(|f: FindingView| byte_len(or_dash(f.blame_commit)) as int)
}

/// The widths of the columns: each the widest of its cells and its header,
/// the MESSAGE column capped at 60 and the BLAME AUTHOR column at 30.
pub open spec fn column_widths(fs: Seq<FindingView>, now: int) -> ColumnWidths {
    ColumnWidths {
        file: widest(file_widths(fs), 4),
        line: widest(line_widths(fs), 4),
        tag: widest(tag_widths(fs), 3),
        sev: widest(sev_widths(fs), 8),
        msg: smaller(widest(msg_widths(fs), 7) as int, 60) as nat,
        blame: smaller(widest(blame_widths(fs), 12) as int, 30) as nat,
        age: widest(age_widths(fs, now), 3),
        commit: widest(commit_widths(fs), 6),
    }
}

/// Whether every width the table measures in bytes fits a `usize`, as it
/// does for text held in memory.
pub open spec fn widths_fit(fs: Seq<FindingView>) -> bool {
    forall|i: int|
        0 <= i < fs.len() ==> {
            &&& byte_len((#[trigger] fs[i]).file) <= usize::MAX
            &&& tag_width(fs[i]) <= usize::MAX
            &&& byte_len(or_dash(fs[i].blame_commit)) <= usize::MAX
        }
}

// ── Rows ──────────────────────────────────────────────────────────────────────

/// The header row, in bold.
pub open spec fn header_text(w: ColumnWidths, blame: bool) -> Seq<char> {
    pad_right("FILE"@, w.file) + "  "@ + pad_left("LINE"@, w.line) + "  "@ + pad_right("TAG"@, w.tag)
        + "  "@ + pad_right("SEVERITY"@, w.sev) + "  "@ + pad_right("MESSAGE"@, w.msg) + if blame {
        "  "@ + pad_right("BLAME AUTHOR"@, w.blame) + "  "@ + pad_right("AGE"@, w.age) + "  "@
            + pad_right("COMMIT"@, w.commit)
    } else {
        ""@
    } + "\n"@
}

/// The rule under the header, dimmed.
pub open spec fn separator_text(w: ColumnWidths, blame: bool) -> Seq<char> {
    repeated('\u{2500}', w.file) + "  "@ + repeated('\u{2500}', w.line) + "  "@ + repeated(
        '\u{2500}',
        w.tag,
    ) + "  "@ + repeated('\u{2500}', w.sev) + "  "@ + repeated('\u{2500}', w.msg) + if blame {
        "  "@ + repeated('\u{2500}', w.blame) + "  "@ + repeated('\u{2500}', w.age) + "  "@
            + repeated('\u{2500}', w.commit)
    } else {
        ""@
    } + "\n"@
}

/// The segments of one row: the file in cyan, the line number in green,
/// tag and severity in the severity's colours, the message cut to its
/// column, and the blame cells when the table has them.
pub open spec fn row_segments(f: FindingView, w: ColumnWidths, blame: bool, colour: bool, now: int) -> Seq<
    SegmentView,
> {
    seq![
        styled(pad_right(f.file, w.file), fg(Color::Cyan), colour),
        styled("  "@ + pad_left(decimal(f.line as nat), w.line), fg(Color::Green), colour),
        styled("  "@ + pad_right(tag_cell(f), w.tag), severity_style(f.severity), colour),
        styled("  "@ + pad_right(severity_text(f.severity), w.sev), severity_style(f.severity), colour),
        plain("  "@ + pad_right(truncated(f.message, w.msg), w.msg)),
    ] + if blame {
        seq![
            styled(
                "  "@ + pad_right(truncated(or_dash(f.blame_author), w.blame), w.blame),
                fg(Color::Green),
                colour,
            ),
            styled("  "@ + pad_right(age_cell(f, now), w.age), fg(Color::Yellow), colour),
            styled("  "@ + pad_right(or_dash(f.blame_commit), w.commit), dimmed(), colour),
        ]
    } else {
        seq![]
    } + seq![plain("\n"@)]
}

/// The rows of all findings, in order.
pub open spec fn rows(fs: Seq<FindingView>, w: ColumnWidths, blame: bool, colour: bool, now: int) -> Seq<
    SegmentView,
>
    decreases fs.len(),
{
    if fs.len() == 0 {
        seq![]
    } else {
        rows(fs.drop_last(), w, blame, colour, now) + row_segments(fs.last(), w, blame, colour, now)
    }
}

/// The whole table output: nothing when there are no findings; otherwise
/// the header, the rule, one row per finding, and the summary.
pub open spec fn table_segments(fs: Seq<FindingView>, colour: bool, elapsed: Seq<char>, now: int) -> Seq<
    SegmentView,
> {
    if fs.len() == 0 {
        seq![]
    } else {
        let w = column_widths(fs, now);
        seq![
            styled(header_text(w, has_blame(fs)), bold(), colour),
            styled(separator_text(w, has_blame(fs)), dimmed(), colour),
        ] + rows(fs, w, has_blame(fs), colour, now) + summary_segments(fs, elapsed, colour)
    }
}

// ── Alignment ─────────────────────────────────────────────────────────────────

/// The number of characters of a line of the table, its line break aside.
pub open spec fn line_width(w: ColumnWidths, blame: bool) -> int {
    (w.file + 2 + w.line + 2 + w.tag + 2 + w.sev + 2 + w.msg) as int + if blame {
        (2 + w.blame + 2 + w.age + 2 + w.commit) as int
    } else {
        0int
    }
}

proof fn lemma_max_of_bounds(s: Seq<int>, k: int)
    requires
        0 <= k < s.len(),
    ensures
        s[k] <= max_of(s),
        max_of(s) >= 0,
    decreases s.len(),
{
    if k < s.len() - 1 {
        lemma_max_of_bounds(s.drop_last(), k);
    } else if s.len() > 1 {
        lemma_max_of_bounds(s.drop_last(), 0);
    }
}

proof fn lemma_max_of_nonneg(s: Seq<int>)
    ensures
        max_of(s) >= 0,
    decreases s.len(),
{
    if s.len() > 0 {
        lemma_max_of_nonneg(s.drop_last());
    }
}

/// A character takes at least one byte.
proof fn lemma_chars_within_bytes(s: Seq<char>)
    ensures
        s.len() <= byte_len(s),
    decreases s.len(),
{
    if s.len() > 0 {
        lemma_chars_within_bytes(s.drop_first());
    }
}

proof fn lemma_padded(s: Seq<char>, w: nat)
    ensures
        s.len() <= w ==> pad_right(s, w).len() == w && pad_left(s, w).len() == w,
{
}

/// Where a column's cells come from: the cell of each finding is no wider
/// than the column.
proof fn lemma_cell_fits(vals: Seq<int>, k: int, cell: nat, header: int, w: nat)
    requires
        0 <= k < vals.len(),
        cell <= vals[k],
        w == widest(vals, header),
    ensures
        cell <= w,
{
    lemma_max_of_bounds(vals, k);
}

/// Whether every column is at least as wide as its header.
pub open spec fn fits_headers(w: ColumnWidths) -> bool {
    w.file >= 4 && w.line >= 4 && w.tag >= 3 && w.sev >= 8 && w.msg >= 7 && w.blame >= 12 && w.age >= 3
        && w.commit >= 6
}

proof fn lemma_header_width(w: ColumnWidths, b: bool)
    requires
        fits_headers(w),
    ensures
        header_text(w, b).len() == line_width(w, b) + 1,
        separator_text(w, b).len() == line_width(w, b) + 1,
{
    reveal_strlit("FILE");
    reveal_strlit("LINE");
    reveal_strlit("TAG");
    reveal_strlit("SEVERITY");
    reveal_strlit("MESSAGE");
    reveal_strlit("BLAME AUTHOR");
    reveal_strlit("AGE");
    reveal_strlit("COMMIT");
    reveal_strlit("  ");
    reveal_strlit("\n");
    reveal_strlit("");
}

/// Whether each cell of the row of `f` fits its column.
pub open spec fn cells_fit(f: FindingView, w: ColumnWidths, now: int) -> bool {
    &&& f.file.len() <= w.file
    &&& decimal(f.line as nat).len() <= w.line
    &&& tag_cell(f).len() <= w.tag
    &&& severity_text(f.severity).len() <= w.sev
    &&& or_dash(f.blame_commit).len() <= w.commit
    &&& age_cell(f, now).len() <= w.age
    &&& w.msg >= 3
    &&& w.blame >= 3
}

proof fn lemma_truncated_fits(s: Seq<char>, max: nat)
    requires
        max >= 3,
    ensures
        truncated(s, max).len() <= max,
{
    reveal_strlit("...");
}

proof fn lemma_row_width(f: FindingView, w: ColumnWidths, b: bool, colour: bool, now: int)
    requires
        cells_fit(f, w, now),
    ensures
        texts(row_segments(f, w, b, colour, now)).len() == line_width(w, b) + 1,
{
    reveal_strlit("  ");
    reveal_strlit("\n");
    lemma_truncated_fits(f.message, w.msg);
    lemma_truncated_fits(or_dash(f.blame_author), w.blame);
    lemma_padded(f.file, w.file);
    lemma_padded(decimal(f.line as nat), w.line);
    lemma_padded(tag_cell(f), w.tag);
    lemma_padded(severity_text(f.severity), w.sev);
    lemma_padded(truncated(f.message, w.msg), w.msg);
    lemma_padded(truncated(or_dash(f.blame_author), w.blame), w.blame);
    lemma_padded(age_cell(f, now), w.age);
    lemma_padded(or_dash(f.blame_commit), w.commit);
    let s1 = styled(pad_right(f.file, w.file), fg(Color::Cyan), colour);
    let s2 = styled("  "@ + pad_left(decimal(f.line as nat), w.line), fg(Color::Green), colour);
    let s3 = styled("  "@ + pad_right(tag_cell(f), w.tag), severity_style(f.severity), colour);
    let s4 = styled("  "@ + pad_right(severity_text(f.severity), w.sev), severity_style(f.severity), colour);
    let s5 = plain("  "@ + pad_right(truncated(f.message, w.msg), w.msg));
    let t1 = styled("  "@ + pad_right(truncated(or_dash(f.blame_author), w.blame), w.blame), fg(Color::Green), colour);
    let t2 = styled("  "@ + pad_right(age_cell(f, now), w.age), fg(Color::Yellow), colour);
    let t3 = styled("  "@ + pad_right(or_dash(f.blame_commit), w.commit), dimmed(), colour);
    let nl = plain("\n"@);
    let main = seq![s1, s2, s3, s4, s5];
    let extra = if b {
        seq![t1, t2, t3]
    } else {
        seq![]
    };
    assert(main =~= seq![s1] + seq![s2] + seq![s3] + seq![s4] + seq![s5]);
    lemma_texts_one(s1);
    lemma_texts_one(s2);
    lemma_texts_one(s3);
    lemma_texts_one(s4);
    lemma_texts_one(s5);
    lemma_texts_concat(seq![s1], seq![s2]);
    lemma_texts_concat(seq![s1] + seq![s2], seq![s3]);
    lemma_texts_concat(seq![s1] + seq![s2] + seq![s3], seq![s4]);
    lemma_texts_concat(seq![s1] + seq![s2] + seq![s3] + seq![s4], seq![s5]);
    assert(texts(main).len() == w.file + 2 + w.line + 2 + w.tag + 2 + w.sev + 2 + w.msg);
    if b {
        assert(extra =~= seq![t1] + seq![t2] + seq![t3]);
        lemma_texts_one(t1);
        lemma_texts_one(t2);
        lemma_texts_one(t3);
        lemma_texts_concat(seq![t1], seq![t2]);
        lemma_texts_concat(seq![t1] + seq![t2], seq![t3]);
    } else {
        assert(texts(extra) =~= Seq::<char>::empty());
    }
    lemma_texts_one(nl);
    lemma_texts_concat(main, extra);
    lemma_texts_concat(main + extra, seq![nl]);
    assert(row_segments(f, w, b, colour, now) == main + extra + seq![nl]);
}

/// The headings of the columns every table has, FILE to MESSAGE.
pub open spec fn main_headings(w: ColumnWidths) -> Seq<char> {
    pad_right("FILE"@, w.file) + "  "@ + pad_left("LINE"@, w.line) + "  "@ + pad_right("TAG"@, w.tag)
        + "  "@ + pad_right("SEVERITY"@, w.sev) + "  "@ + pad_right("MESSAGE"@, w.msg)
}

/// The headings of the blame columns, BLAME AUTHOR, AGE and COMMIT.
pub open spec fn blame_headings(w: ColumnWidths) -> Seq<char> {
    "  "@ + pad_right("BLAME AUTHOR"@, w.blame) + "  "@ + pad_right("AGE"@, w.age) + "  "@ + pad_right(
        "COMMIT"@,
        w.commit,
    )
}

/// The blame columns appear exactly when some finding carries a blame
/// author: the header is the five main headings followed by the BLAME
/// AUTHOR, AGE and COMMIT headings when one does, and the main headings
/// alone when none does; each row then has eight cells or five (and its
/// line break).
pub proof fn blame_columns_follow_blame_data(fs: Seq<FindingView>, now: int, colour: bool, i: int)
    requires
        0 <= i < fs.len(),
    ensures
        has_blame(fs) <==> exists|j: int| 0 <= j < fs.len() && (#[trigger] fs[j]).blame_author is Some,
        has_blame(fs) ==> header_text(column_widths(fs, now), true) == main_headings(column_widths(fs, now))
            + blame_headings(column_widths(fs, now)) + "\n"@,
        !has_blame(fs) ==> header_text(column_widths(fs, now), false) == main_headings(column_widths(fs, now)) + "\n"@,
        row_segments(fs[i], column_widths(fs, now), has_blame(fs), colour, now).len() == if has_blame(fs) {
            9int
        } else {
            6int
        },
{
    let w = column_widths(fs, now);
    reveal_strlit("");
    assert(main_headings(w) + ""@ =~= main_headings(w));
    assert(header_text(w, true) =~= main_headings(w) + blame_headings(w) + "\n"@);
    assert(header_text(w, false) =~= main_headings(w) + "\n"@);
}

/// The table ends with its summary: after the line break of the last row
/// come a blank line, the sentence counting the findings and the distinct
/// files they are in, the elapsed time, and a line break.
pub proof fn table_ends_with_summary(fs: Seq<FindingView>, colour: bool, elapsed: Seq<char>, now: int)
    requires
        fs.len() > 0,
    ensures
        exists|body: Seq<char>|
            texts(table_segments(fs, colour, elapsed, now)) == body + "\n\n"@ + summary_text(fs.len(), file_total(fs))
                + "  "@ + elapsed + "\n"@,
{
    let w = column_widths(fs, now);
    let b = has_blame(fs);
    let head = seq![styled(header_text(w, b), bold(), colour), styled(separator_text(w, b), dimmed(), colour)];
    let r = rows(fs, w, b, colour, now);
    let last = row_segments(fs.last(), w, b, colour, now);
    assert(r == rows(fs.drop_last(), w, b, colour, now) + last);
    assert(last.last() == plain("\n"@));
    let body = head + r;
    assert(body.last() == plain("\n"@));
    assert(table_segments(fs, colour, elapsed, now) == body + summary_segments(fs, elapsed, colour));
    lemma_ends_with_summary(body, fs, elapsed, colour);
    let t = texts(body.drop_last());
    assert(texts(table_segments(fs, colour, elapsed, now)) == t + "\n\n"@ + summary_text(fs.len(), file_total(fs))
        + "  "@ + elapsed + "\n"@);
}

proof fn lemma_pad_lacks(s: Seq<char>, w: nat, c: char)
    requires
        lacks(s, c),
        c != ' ',
    ensures
        lacks(pad_right(s, w), c),
        lacks(pad_left(s, w), c),
{
    if s.len() < w {
        let sp = repeated(' ', (w - s.len()) as nat);
        assert(lacks(sp, c));
        lemma_lacks_concat(s, sp, c);
        lemma_lacks_concat(sp, s, c);
    }
}

proof fn lemma_heading_lacks(s: Seq<char>, c: char)
    requires
        c == 'B' || c == 'C',
        s == "FILE"@ || s == "LINE"@ || s == "TAG"@ || s == "SEVERITY"@ || s == "MESSAGE"@ || s == "  "@
            || s == "\n"@ || s == ""@,
    ensures
        lacks(s, c),
{
    reveal_strlit("FILE");
    reveal_strlit("LINE");
    reveal_strlit("TAG");
    reveal_strlit("SEVERITY");
    reveal_strlit("MESSAGE");
    reveal_strlit("  ");
    reveal_strlit("\n");
    reveal_strlit("");
    assert forall|i: int| 0 <= i < s.len() implies s[i] != c by {
        if s == "SEVERITY"@ {
            assert(0 <= i < 8);
        }
    }
}

/// Without blame data the header names no blame column: it holds no `B`
/// and no `C`, so neither `BLAME AUTHOR` nor `COMMIT` appears in it (and
/// each row has its five cells and line break only, as
/// [`blame_columns_follow_blame_data`] states).
pub proof fn no_blame_headings_without_blame_data(fs: Seq<FindingView>, now: int)
    requires
        !has_blame(fs),
    ensures
        lacks(header_text(column_widths(fs, now), has_blame(fs)), 'B'),
        lacks(header_text(column_widths(fs, now), has_blame(fs)), 'C'),
{
    let w = column_widths(fs, now);
    lemma_header_lacks(w, 'B');
    lemma_header_lacks(w, 'C');
}

proof fn lemma_header_lacks(w: ColumnWidths, c: char)
    requires
        c == 'B' || c == 'C',
    ensures
        lacks(header_text(w, false), c),
{
    lemma_heading_lacks("FILE"@, c);
    lemma_heading_lacks("LINE"@, c);
    lemma_heading_lacks("TAG"@, c);
    lemma_heading_lacks("SEVERITY"@, c);
    lemma_heading_lacks("MESSAGE"@, c);
    lemma_heading_lacks("  "@, c);
    lemma_heading_lacks("\n"@, c);
    lemma_heading_lacks(""@, c);
    lemma_pad_lacks("FILE"@, w.file, c);
    lemma_pad_lacks("LINE"@, w.line, c);
    lemma_pad_lacks("TAG"@, w.tag, c);
    lemma_pad_lacks("SEVERITY"@, w.sev, c);
    lemma_pad_lacks("MESSAGE"@, w.msg, c);
    let p1 = pad_right("FILE"@, w.file);
    let p2 = p1 + "  "@;
    lemma_lacks_concat(p1, "  "@, c);
    let p3 = p2 + pad_left("LINE"@, w.line);
    lemma_lacks_concat(p2, pad_left("LINE"@, w.line), c);
    let p4 = p3 + "  "@;
    lemma_lacks_concat(p3, "  "@, c);
    let p5 = p4 + pad_right("TAG"@, w.tag);
    lemma_lacks_concat(p4, pad_right("TAG"@, w.tag), c);
    let p6 = p5 + "  "@;
    lemma_lacks_concat(p5, "  "@, c);
    let p7 = p6 + pad_right("SEVERITY"@, w.sev);
    lemma_lacks_concat(p6, pad_right("SEVERITY"@, w.sev), c);
    let p8 = p7 + "  "@;
    lemma_lacks_concat(p7, "  "@, c);
    let p9 = p8 + pad_right("MESSAGE"@, w.msg);
    lemma_lacks_concat(p8, pad_right("MESSAGE"@, w.msg), c);
    let p10 = p9 + ""@;
    lemma_lacks_concat(p9, ""@, c);
    lemma_lacks_concat(p10, "\n"@, c);
    assert(header_text(w, false) == p10 + "\n"@);
}

/// Every line of the table has the same width: the header, the rule under
/// it and the row of each finding are all [`line_width`] characters long
/// before their line break, so the columns line up.
pub proof fn table_lines_align(fs: Seq<FindingView>, now: int, colour: bool, i: int)
    requires
        0 <= i < fs.len(),
    ensures
        header_text(column_widths(fs, now), has_blame(fs)).len() == line_width(column_widths(fs, now), has_blame(fs)) + 1,
        separator_text(column_widths(fs, now), has_blame(fs)).len() == line_width(column_widths(fs, now), has_blame(fs)) + 1,
        texts(row_segments(fs[i], column_widths(fs, now), has_blame(fs), colour, now)).len() == line_width(column_widths(fs, now), has_blame(fs)) + 1,
{
    let w = column_widths(fs, now);
    let b = has_blame(fs);
    let f = fs[i];
    reveal_strlit("(");
    reveal_strlit(")");
    reveal_strlit("-");
    reveal_strlit("error");
    reveal_strlit("warning");
    reveal_strlit("info");
    lemma_max_of_nonneg(msg_widths(fs));
    lemma_max_of_nonneg(blame_widths(fs));
    assert(fits_headers(w));
    lemma_header_width(w, b);
    lemma_chars_within_bytes(f.file);
    lemma_cell_fits(file_widths(fs), i, f.file.len(), 4, w.file);
    lemma_cell_fits(line_widths(fs), i, decimal(f.line as nat).len(), 4, w.line);
    lemma_chars_within_bytes(f.tag);
    match f.author {
        Some(a) => {
            lemma_chars_within_bytes(a);
        },
        None => {},
    }
    assert(tag_cell(f).len() <= tag_width(f));
    lemma_cell_fits(tag_widths(fs), i, tag_cell(f).len(), 3, w.tag);
    lemma_cell_fits(sev_widths(fs), i, severity_text(f.severity).len(), 8, w.sev);
    lemma_chars_within_bytes(or_dash(f.blame_commit));
    lemma_cell_fits(commit_widths(fs), i, or_dash(f.blame_commit).len(), 6, w.commit);
    lemma_cell_fits(age_widths(fs, now), i, age_cell(f, now).len(), 3, w.age);
    lemma_row_width(f, w, b, colour, now);
}

// ── Writing ───────────────────────────────────────────────────────────────────

/// The widths of the columns, as the formatter holds them.
struct Widths {
    file: usize,
    line: usize,
    tag: usize,
    sev: usize,
    msg: usize,
    blame: usize,
    age: usize,
    commit: usize,
}

spec fn widths_view(w: Widths) -> ColumnWidths {
    ColumnWidths {
        file: w.file as nat,
        line: w.line as nat,
        tag: w.tag as nat,
        sev: w.sev as nat,
        msg: w.msg as nat,
        blame: w.blame as nat,
        age: w.age as nat,
        commit: w.commit as nat,
    }
}

/// The widths one finding's cells ask for.
struct Cells {
    file: usize,
    line: usize,
    tag: usize,
    sev: usize,
    msg: usize,
    blame: usize,
    age: usize,
    commit: usize,
}

proof fn lemma_ascii_len(s: Seq<char>)
    requires
        is_ascii_chars(s),
    ensures
        encode_utf8(s).len() == s.len(),
{
}

fn cell_widths(f: &Finding, now: i64) -> (c: Cells)
    requires
        byte_len(f@.file) <= usize::MAX,
        tag_width(f@) <= usize::MAX,
        byte_len(or_dash(f@.blame_commit)) <= usize::MAX,
    ensures
        c.file == byte_len(f@.file),
        c.line == decimal(f@.line as nat).len(),
        c.tag == tag_width(f@),
        c.sev == severity_text(f@.severity).len(),
        c.msg == f@.message.len(),
        c.blame == or_dash(f@.blame_author).len(),
        c.age == age_cell(f@, now as int).len(),
        c.commit == byte_len(or_dash(f@.blame_commit)),
{
    proof {
        reveal_strlit("-");
        assert(is_ascii_chars("-"@));
        lemma_ascii_len("-"@);
    }
    let file = f.file.as_str().len();
    let line = digit_count(f.line);
    let tag = match &f.author {
        Some(a) => f.tag.as_str().len() + a.as_str().len() + 2,
        None => f.tag.as_str().len(),
    };
    let sev = chars_of(severity_str(f.severity)).len();
    let msg = chars_of(f.message.as_str()).len();
    let blame = match &f.blame_author {
        Some(a) => chars_of(a.as_str()).len(),
        None => 1,
    };
    let age = match f.blame_date {
        Some(d) => chars_of(format_age_at(now, d).as_str()).len(),
        None => 1,
    };
    let commit = match &f.blame_commit {
        Some(c) => c.as_str().len(),
        None => 1,
    };
    Cells { file, line, tag, sev, msg, blame, age, commit }
}

proof fn lemma_header_len(h: &str, n: nat)
    requires
        is_ascii_chars(h@),
        h@.len() == n,
        n < 100,
    ensures
        h.len() == n,
{
    lemma_ascii_len(h@);
    assert(h.spec_bytes() == encode_utf8(h@));
}

proof fn lemma_ints_step(old: Seq<usize>, new: Seq<usize>, x: usize, ws_old: Seq<int>, ws_new: Seq<int>)
    requires
        ints(old) == ws_old,
        new == old.push(x),
        ws_new == ws_old.push(x as int),
    ensures
        ints(new) == ws_new,
{
    assert(ints(new) =~= ws_new);
}

#[verifier::rlimit(40)]
fn measure(findings: &[Finding], now: i64) -> (w: Widths)
    requires
        widths_fit(finding_views(findings@)),
    ensures
        widths_view(w) == column_widths(finding_views(findings@), now as int),
{
    let ghost vs = finding_views(findings@);
    let mut files: Vec<usize> = Vec::new();
    let mut lines: Vec<usize> = Vec::new();
    let mut tags: Vec<usize> = Vec::new();
    let mut sevs: Vec<usize> = Vec::new();
    let mut msgs: Vec<usize> = Vec::new();
    let mut blames: Vec<usize> = Vec::new();
    let mut ages: Vec<usize> = Vec::new();
    let mut commits: Vec<usize> = Vec::new();
    let mut i: usize = 0;
    while i < findings.len()
        invariant
            0 <= i <= findings@.len(),
            vs == finding_views(findings@),
            widths_fit(vs),
            ints(files@) == file_widths(vs.take(i as int)),
            ints(lines@) == line_widths(vs.take(i as int)),
            ints(tags@) == tag_widths(vs.take(i as int)),
            ints(sevs@) == sev_widths(vs.take(i as int)),
            ints(msgs@) == msg_widths(vs.take(i as int)),
            ints(blames@) == blame_widths(vs.take(i as int)),
            ints(ages@) == age_widths(vs.take(i as int), now as int),
            ints(commits@) == commit_widths(vs.take(i as int)),
        decreases findings@.len() - i,
    {
        assert(vs[i as int] == findings@[i as int]@);
        let c = cell_widths(&findings[i], now);
        let ghost (f0, l0, t0, s0, m0, b0, a0, c0) = (files@, lines@, tags@, sevs@, msgs@, blames@, ages@, commits@);
        files.push(c.file);
        lines.push(c.line);
        tags.push(c.tag);
        sevs.push(c.sev);
        msgs.push(c.msg);
        blames.push(c.blame);
        ages.push(c.age);
        commits.push(c.commit);
        proof {
            let p = vs.take(i as int);
            let t = vs.take(i + 1);
            let x = vs[i as int];
            assert(t =~= p.push(x));
            assert(file_widths(t) =~= file_widths(p).push(byte_len(x.file) as int));
            lemma_ints_step(f0, files@, c.file, file_widths(p), file_widths(t));
            assert(line_widths(t) =~= line_widths(p).push(decimal(x.line as nat).len() as int));
            lemma_ints_step(l0, lines@, c.line, line_widths(p), line_widths(t));
            assert(tag_widths(t) =~= tag_widths(p).push(tag_width(x) as int));
            lemma_ints_step(t0, tags@, c.tag, tag_widths(p), tag_widths(t));
            assert(sev_widths(t) =~= sev_widths(p).push(severity_text(x.severity).len() as int));
            lemma_ints_step(s0, sevs@, c.sev, sev_widths(p), sev_widths(t));
            assert(msg_widths(t) =~= msg_widths(p).push(x.message.len() as int));
            lemma_ints_step(m0, msgs@, c.msg, msg_widths(p), msg_widths(t));
            assert(blame_widths(t) =~= blame_widths(p).push(or_dash(x.blame_author).len() as int));
            lemma_ints_step(b0, blames@, c.blame, blame_widths(p), blame_widths(t));
            assert(age_widths(t, now as int) =~= age_widths(p, now as int).push(age_cell(x, now as int).len() as int));
            lemma_ints_step(a0, ages@, c.age, age_widths(p, now as int), age_widths(t, now as int));
            assert(commit_widths(t) =~= commit_widths(p).push(byte_len(or_dash(x.blame_commit)) as int));
            lemma_ints_step(c0, commits@, c.commit, commit_widths(p), commit_widths(t));
        }
        i += 1;
    }
    assert(vs.take(findings@.len() as int) =~= vs);
    proof {
        reveal_strlit("FILE");
        reveal_strlit("LINE");
        reveal_strlit("TAG");
        reveal_strlit("SEVERITY");
        reveal_strlit("MESSAGE");
        reveal_strlit("BLAME AUTHOR");
        reveal_strlit("AGE");
        reveal_strlit("COMMIT");
        lemma_header_len("FILE", 4);
        lemma_header_len("LINE", 4);
        lemma_header_len("TAG", 3);
        lemma_header_len("SEVERITY", 8);
        lemma_header_len("MESSAGE", 7);
        lemma_header_len("BLAME AUTHOR", 12);
        lemma_header_len("AGE", 3);
        lemma_header_len("COMMIT", 6);
    }
    let file = col_width("FILE", files.as_slice());
    let line = col_width("LINE", lines.as_slice());
    let tag = col_width("TAG", tags.as_slice());
    let sev = col_width("SEVERITY", sevs.as_slice());
    let mut msg = col_width("MESSAGE", msgs.as_slice());
    if msg > 60 {
        msg = 60;
    }
    let mut blame = col_width("BLAME AUTHOR", blames.as_slice());
    if blame > 30 {
        blame = 30;
    }
    let age = col_width("AGE", ages.as_slice());
    let commit = col_width("COMMIT", commits.as_slice());
    Widths { file, line, tag, sev, msg, blame, age, commit }
}

fn any_blame(findings: &[Finding]) -> (r: bool)
    ensures
        r == has_blame(finding_views(findings@)),
{
    let ghost vs = finding_views(findings@);
    let mut i: usize = 0;
    while i < findings.len()
        invariant
            0 <= i <= findings@.len(),
            vs == finding_views(findings@),
            forall|j: int| 0 <= j < i ==> (#[trigger] vs[j]).blame_author is None,
        decreases findings@.len() - i,
    {
        if findings[i].blame_author.is_some() {
            assert(vs[i as int].blame_author is Some);
            return true;
        }
        i += 1;
    }
    false
}

fn header(w: &Widths, blame: bool) -> (r: String)
    ensures
        r@ == header_text(widths_view(*w), blame),
{
    proof {
        reveal_strlit("");
    }
    let mut r = String::new();
    push_padded_right(&mut r, "FILE", w.file);
    push_str(&mut r, "  ");
    push_padded_left(&mut r, "LINE", w.line);
    push_str(&mut r, "  ");
    push_padded_right(&mut r, "TAG", w.tag);
    push_str(&mut r, "  ");
    push_padded_right(&mut r, "SEVERITY", w.sev);
    push_str(&mut r, "  ");
    push_padded_right(&mut r, "MESSAGE", w.msg);
    if blame {
        push_str(&mut r, "  ");
        push_padded_right(&mut r, "BLAME AUTHOR", w.blame);
        push_str(&mut r, "  ");
        push_padded_right(&mut r, "AGE", w.age);
        push_str(&mut r, "  ");
        push_padded_right(&mut r, "COMMIT", w.commit);
    }
    push_str(&mut r, "\n");
    assert(r@ =~= header_text(widths_view(*w), blame));
    r
}

fn separator(w: &Widths, blame: bool) -> (r: String)
    ensures
        r@ == separator_text(widths_view(*w), blame),
{
    proof {
        reveal_strlit("");
    }
    let mut r = String::new();
    push_str(&mut r, dash(w.file).as_str());
    push_str(&mut r, "  ");
    push_str(&mut r, dash(w.line).as_str());
    push_str(&mut r, "  ");
    push_str(&mut r, dash(w.tag).as_str());
    push_str(&mut r, "  ");
    push_str(&mut r, dash(w.sev).as_str());
    push_str(&mut r, "  ");
    push_str(&mut r, dash(w.msg).as_str());
    if blame {
        push_str(&mut r, "  ");
        push_str(&mut r, dash(w.blame).as_str());
        push_str(&mut r, "  ");
        push_str(&mut r, dash(w.age).as_str());
        push_str(&mut r, "  ");
        push_str(&mut r, dash(w.commit).as_str());
    }
    push_str(&mut r, "\n");
    assert(r@ =~= separator_text(widths_view(*w), blame));
    r
}

/// `"  "` followed by `s` left-aligned in `w` characters.
fn cell(s: &str, w: usize) -> (r: String)
    ensures
        r@ == "  "@ + pad_right(s@, w as nat),
{
    let mut r = owned("  ");
    push_padded_right(&mut r, s, w);
    r
}

/// Writes findings as a fixed-width table with aligned columns.
pub struct TableFormatter {
    colour: bool,
}

impl TableFormatter {
    /// Whether this formatter colours its output.
    pub closed spec fn uses_colour(&self) -> bool {
        self.colour
    }

    pub fn new(colour: bool) -> (r: Self)
        ensures
            r.uses_colour() == colour,
    {
        TableFormatter { colour }
    }

    fn write_blame_cells(&self, out: &mut Vec<Segment>, f: &Finding, w: &Widths, now: i64)
        ensures
            segment_views(final(out)@) == segment_views(old(out)@) + seq![
                styled(
                    "  "@ + pad_right(truncated(or_dash(f@.blame_author), w.blame as nat), w.blame as nat),
                    fg(Color::Green),
                    self.colour,
                ),
                styled("  "@ + pad_right(age_cell(f@, now as int), w.age as nat), fg(Color::Yellow), self.colour),
                styled("  "@ + pad_right(or_dash(f@.blame_commit), w.commit as nat), dimmed(), self.colour),
            ],
    {
        let ghost before = segment_views(out@);
        let author = match &f.blame_author {
            Some(a) => truncate(a.as_str(), w.blame),
            None => truncate("-", w.blame),
        };
        push_styled(out, cell(author.as_str(), w.blame), Style { fg: Some(Color::Green), bold: false, dimmed: false }, self.colour);
        let age = match f.blame_date {
            Some(d) => format_age_at(now, d),
            None => owned("-"),
        };
        push_styled(out, cell(age.as_str(), w.age), Style { fg: Some(Color::Yellow), bold: false, dimmed: false }, self.colour);
        let commit = match &f.blame_commit {
            Some(c) => cell(c.as_str(), w.commit),
            None => cell("-", w.commit),
        };
        push_styled(out, commit, Style { fg: None, bold: false, dimmed: true }, self.colour);
        assert(segment_views(out@) =~= before + seq![
            styled(
                "  "@ + pad_right(truncated(or_dash(f@.blame_author), w.blame as nat), w.blame as nat),
                fg(Color::Green),
                self.colour,
            ),
            styled("  "@ + pad_right(age_cell(f@, now as int), w.age as nat), fg(Color::Yellow), self.colour),
            styled("  "@ + pad_right(or_dash(f@.blame_commit), w.commit as nat), dimmed(), self.colour),
        ]);
    }

    fn write_row(&self, out: &mut Vec<Segment>, f: &Finding, w: &Widths, blame: bool, now: i64)
        ensures
            segment_views(final(out)@) == segment_views(old(out)@) + row_segments(
                f@,
                widths_view(*w),
                blame,
                self.colour,
                now as int,
            ),
    {
        let ghost before = segment_views(out@);
        // FILE - cyan
        let mut file = String::new();
        push_padded_right(&mut file, f.file.as_str(), w.file);
        push_styled(out, file, Style { fg: Some(Color::Cyan), bold: false, dimmed: false }, self.colour);
        // LINE - green, right-aligned
        let mut number = String::new();
        push_decimal(&mut number, f.line as u64);
        let mut line = owned("  ");
        push_padded_left(&mut line, number.as_str(), w.line);
        push_styled(out, line, Style { fg: Some(Color::Green), bold: false, dimmed: false }, self.colour);
        // TAG - coloured by severity (with the annotation's author if present)
        let mut tag = owned(f.tag.as_str());
        if let Some(a) = &f.author {
            push_str(&mut tag, "(");
            push_str(&mut tag, a.as_str());
            push_str(&mut tag, ")");
        }
        assert(tag@ =~= tag_cell(f@));
        push_styled(out, cell(tag.as_str(), w.tag), severity_style_exec(f.severity), self.colour);
        // SEVERITY - same colour as the tag
        push_styled(out, cell(severity_str(f.severity), w.sev), severity_style_exec(f.severity), self.colour);
        // MESSAGE - truncated with an ellipsis if needed
        push_plain(out, cell(truncate(f.message.as_str(), w.msg).as_str(), w.msg));
        let ghost main = segment_views(out@);
        if blame {
            self.write_blame_cells(out, f, w, now);
        }
        let ghost cells = segment_views(out@);
        push_plain(out, owned("\n"));
        proof {
            let wv = widths_view(*w);
            let first = seq![
                styled(pad_right(f@.file, wv.file), fg(Color::Cyan), self.colour),
                styled("  "@ + pad_left(decimal(f@.line as nat), wv.line), fg(Color::Green), self.colour),
                styled("  "@ + pad_right(tag_cell(f@), wv.tag), severity_style(f@.severity), self.colour),
                styled("  "@ + pad_right(severity_text(f@.severity), wv.sev), severity_style(f@.severity), self.colour),
                plain("  "@ + pad_right(truncated(f@.message, wv.msg), wv.msg)),
            ];
            let extra = if blame {
                seq![
                    styled(
                        "  "@ + pad_right(truncated(or_dash(f@.blame_author), wv.blame), wv.blame),
                        fg(Color::Green),
                        self.colour,
                    ),
                    styled("  "@ + pad_right(age_cell(f@, now as int), wv.age), fg(Color::Yellow), self.colour),
                    styled("  "@ + pad_right(or_dash(f@.blame_commit), wv.commit), dimmed(), self.colour),
                ]
            } else {
                seq![]
            };
            assert(main =~= before + first);
            assert(cells =~= before + first + extra);
            assert(segment_views(out@) =~= before + (first + extra + seq![plain("\n"@)]));
        }
    }

    /// The full table followed by the summary line with the elapsed time
    /// `elapsed`; the ages of commits are seen at Unix time `now`.
    pub fn write_all_at(&self, findings: &[Finding], elapsed: &str, now: i64) -> (r: Vec<Segment>)
        requires
            widths_fit(finding_views(findings@)),
        ensures
            segment_views(r@) == table_segments(finding_views(findings@), self.uses_colour(), elapsed@, now as int),
    {
        let ghost vs = finding_views(findings@);
        let mut out: Vec<Segment> = Vec::new();
        if findings.len() == 0 {
            assert(segment_views(out@) =~= Seq::<SegmentView>::empty());
            return out;
        }
        let blame = any_blame(findings);
        let w = measure(findings, now);
        push_styled(&mut out, header(&w, blame), Style { fg: None, bold: true, dimmed: false }, self.colour);
        push_styled(&mut out, separator(&w, blame), Style { fg: None, bold: false, dimmed: true }, self.colour);
        let ghost top = segment_views(out@);
        let mut i: usize = 0;
        assert(vs.take(0) =~= Seq::<FindingView>::empty());
        while i < findings.len()
            invariant
                0 <= i <= findings@.len(),
                vs == finding_views(findings@),
                segment_views(out@) == top + rows(vs.take(i as int), widths_view(w), blame, self.colour, now as int),
            decreases findings@.len() - i,
        {
            assert(vs.take(i + 1).drop_last() =~= vs.take(i as int));
            assert(vs[i as int] == findings@[i as int]@);
            self.write_row(&mut out, &findings[i], &w, blame, now);
            assert(segment_views(out@) =~= top + rows(vs.take(i + 1), widths_view(w), blame, self.colour, now as int));
            i += 1;
        }
        assert(vs.take(findings@.len() as int) =~= vs);
        push_summary(&mut out, findings, elapsed, self.colour);
        assert(segment_views(out@) =~= table_segments(vs, self.colour, elapsed@, now as int));
        out
    }

    /// The full table followed by the summary line with the elapsed time
    /// `elapsed`; the ages of commits are seen at the time the clock reads.
    pub fn write_all(&self, findings: &[Finding], elapsed: &str) -> (r: Vec<Segment>)
        requires
            widths_fit(finding_views(findings@)),
        ensures
            exists|now: i64| now >= 0 && segment_views(r@) == table_segments(finding_views(findings@), self.uses_colour(), elapsed@, now as int),
    {
        let now = unix_time_now();
        self.write_all_at(findings, elapsed, now)
    }
}

impl Formatter for TableFormatter {
    /// This formatter's output is made by [`TableFormatter::write_all`];
    /// through the trait it renders nothing.
    fn format(&self, findings: &[Finding]) -> (r: String)
        ensures
            r@ == Seq::<char>::empty(),
    {
        String::new()
    }
}

} // verus!
