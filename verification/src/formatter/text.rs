//! Human-readable, optionally coloured text output (ripgrep-style).

use vstd::prelude::*;

use super::{
    dimmed, fg, file_total, lemma_ends_with_summary, lemma_texts_concat, lemma_texts_one, plain, push_plain, push_styled, push_summary,
    segment_views, styled, summary_segments, summary_text, texts, Color, Formatter, Segment,
    SegmentView, Style,
};
use crate::blame::{age_days, age_text, format_age_at, unix_time_now};
use crate::matcher::{finding_views, Finding, FindingView, Severity};
use crate::order::{paths_equal, same_path};
use crate::text::{decimal, owned, push_decimal, push_str};

verus! {

/// The style of a tag of the given severity: bold red for errors, bold
/// yellow for warnings, blue for information.
pub open spec fn severity_style(s: Severity) -> Style {
    match s {
        Severity::Error => Style { fg: Some(Color::Red), bold: true, dimmed: false },
        Severity::Warning => Style { fg: Some(Color::Yellow), bold: true, dimmed: false },
        Severity::Info => Style { fg: Some(Color::Blue), bold: false, dimmed: false },
    }
}

pub(crate) fn severity_style_exec(s: Severity) -> (r: Style)
    ensures
        r == severity_style(s),
{
    match s {
        Severity::Error => Style { fg: Some(Color::Red), bold: true, dimmed: false },
        Severity::Warning => Style { fg: Some(Color::Yellow), bold: true, dimmed: false },
        Severity::Info => Style { fg: Some(Color::Blue), bold: false, dimmed: false },
    }
}

/// The style of a file name: bold cyan.
pub open spec fn file_style() -> Style {
    Style { fg: Some(Color::Cyan), bold: true, dimmed: false }
}

/// `":LINE:COL:"`, the column left out when it is 1 (or 0).
pub open spec fn location_text(f: FindingView) -> Seq<char> {
    ":"@ + decimal(f.line as nat) + if f.column > 1 {
        ":"@ + decimal(f.column as nat)
    } else {
        ""@
    } + ":"@
}

/// `"TAG:"`, or `"TAG(author):"` when the annotation names an author.
pub open spec fn tag_label(f: FindingView) -> Seq<char> {
    match f.author {
        Some(a) => f.tag + "("@ + a + "):"@,
        None => f.tag + ":"@,
    }
}

/// The line under a finding that shows its blame data, seen at Unix time
/// `now`: present when the author and the date are both known.
pub open spec fn blame_segments(f: FindingView, colour: bool, now: int) -> Seq<SegmentView> {
    match (f.blame_author, f.blame_date) {
        (Some(a), Some(d)) => seq![
            styled(
                "  └─ "@ + a + "  ·  "@ + age_text(age_days(now, d)) + match f.blame_commit {
                    Some(c) => "  ("@ + c + ")"@,
                    None => ""@,
                },
                fg(Color::White),
                colour,
            ),
            plain("\n"@),
        ],
        _ => seq![],
    }
}

/// The segments of one finding: `path:line:col: TAG: message`, then its
/// blame line when there is one.
pub open spec fn finding_segments(f: FindingView, colour: bool, now: int) -> Seq<SegmentView> {
    seq![
        styled(f.file, file_style(), colour),
        styled(location_text(f), fg(Color::Green), colour),
        plain(" "@),
        styled(tag_label(f), severity_style(f.severity), colour),
    ] + if f.message.len() > 0 {
        seq![plain(" "@ + f.message)]
    } else {
        seq![]
    } + seq![plain("\n"@)] + blame_segments(f, colour, now)
}

/// The text of a finding's blame line: `"  └─ AUTHOR  ·  AGE  (COMMIT)\n"`
/// (the commit part only when the commit is known) when the author and
/// the date are both known, and nothing otherwise.
pub open spec fn blame_line_text(f: FindingView, now: int) -> Seq<char> {
    match (f.blame_author, f.blame_date) {
        (Some(a), Some(d)) => "  └─ "@ + a + "  ·  "@ + age_text(age_days(now, d)) + match f.blame_commit {
            Some(c) => "  ("@ + c + ")"@,
            None => ""@,
        } + "\n"@,
        _ => seq![],
    }
}

/// A finding reads `path:LINE[:COL]: TAG[(author)]:[ message]` and a line
/// break, then its blame line: the styles aside, this is its text whether
/// colour is on or off.
pub proof fn finding_text(f: FindingView, colour: bool, now: int)
    ensures
        texts(finding_segments(f, colour, now)) == f.file + location_text(f) + " "@ + tag_label(f) + (if f.message.len() > 0 {
            " "@ + f.message
        } else {
            seq![]
        }) + "\n"@ + blame_line_text(f, now),
{
    let a = styled(f.file, file_style(), colour);
    let b = styled(location_text(f), fg(Color::Green), colour);
    let c = plain(" "@);
    let d = styled(tag_label(f), severity_style(f.severity), colour);
    let m = if f.message.len() > 0 {
        seq![plain(" "@ + f.message)]
    } else {
        seq![]
    };
    let nl = plain("\n"@);
    let bl = blame_segments(f, colour, now);
    let head = seq![a, b, c, d];
    assert(head =~= seq![a] + seq![b] + seq![c] + seq![d]);
    lemma_texts_one(a);
    lemma_texts_one(b);
    lemma_texts_one(c);
    lemma_texts_one(d);
    lemma_texts_one(nl);
    lemma_texts_concat(seq![a], seq![b]);
    lemma_texts_concat(seq![a] + seq![b], seq![c]);
    lemma_texts_concat(seq![a] + seq![b] + seq![c], seq![d]);
    let mt = if f.message.len() > 0 {
        " "@ + f.message
    } else {
        seq![]
    };
    if f.message.len() > 0 {
        lemma_texts_one(plain(" "@ + f.message));
    } else {
        assert(texts(m) =~= Seq::<char>::empty());
    }
    match (f.blame_author, f.blame_date) {
        (Some(x), Some(y)) => {
            let s1 = bl[0];
            let s2 = bl[1];
            assert(bl =~= seq![s1] + seq![s2]);
            lemma_texts_one(s1);
            lemma_texts_one(s2);
            lemma_texts_concat(seq![s1], seq![s2]);
        },
        _ => {
            assert(texts(bl) =~= Seq::<char>::empty());
        },
    }
    lemma_texts_concat(head, m);
    lemma_texts_concat(head + m, seq![nl]);
    lemma_texts_concat(head + m + seq![nl], bl);
    assert(finding_segments(f, colour, now) == head + m + seq![nl] + bl);
    assert(texts(finding_segments(f, colour, now)) =~= f.file + location_text(f) + " "@ + tag_label(f) + mt
        + "\n"@ + blame_line_text(f, now));
}

/// The findings one after the other, with a blank line wherever the file
/// changes (paths compared by their components).
pub open spec fn grouped_segments(fs: Seq<FindingView>, colour: bool, now: int) -> Seq<SegmentView>
    decreases fs.len(),
{
    if fs.len() == 0 {
        seq![]
    } else {
        grouped_segments(fs.drop_last(), colour, now) + if fs.len() >= 2 && !same_path(
            fs[fs.len() - 2].file,
            fs.last().file,
        ) {
            seq![plain("\n"@)]
        } else {
            seq![]
        } + finding_segments(fs.last(), colour, now)
    }
}

/// Grouping by file looks at the finding before: the first finding starts
/// the output, and a finding appended after others follows them directly
/// when it is at the same path as the last of them, and after a blank line
/// when it is not.
pub proof fn grouping_follows_the_previous_finding(fs: Seq<FindingView>, f: FindingView, colour: bool, now: int)
    ensures
        grouped_segments(seq![f], colour, now) == finding_segments(f, colour, now),
        fs.len() > 0 && same_path(fs.last().file, f.file) ==> grouped_segments(fs.push(f), colour, now)
            == grouped_segments(fs, colour, now) + finding_segments(f, colour, now),
        fs.len() > 0 && !same_path(fs.last().file, f.file) ==> grouped_segments(fs.push(f), colour, now)
            == grouped_segments(fs, colour, now) + seq![plain("\n"@)] + finding_segments(f, colour, now),
{
    let one = seq![f];
    assert(one.drop_last() =~= Seq::<FindingView>::empty());
    assert(grouped_segments(Seq::<FindingView>::empty(), colour, now) == Seq::<SegmentView>::empty());
    assert(grouped_segments(one, colour, now) == Seq::<SegmentView>::empty() + Seq::<SegmentView>::empty()
        + finding_segments(f, colour, now));
    assert(grouped_segments(one, colour, now) =~= finding_segments(f, colour, now));
    let g = fs.push(f);
    assert(g.drop_last() =~= fs);
    assert(g.last() == f);
    if fs.len() > 0 {
        assert(g[g.len() - 2] == fs.last());
        if same_path(fs.last().file, f.file) {
            assert(grouped_segments(g, colour, now) =~= grouped_segments(fs, colour, now) + finding_segments(f, colour, now));
        }
    }
}

/// The whole text output: nothing when there are no findings; otherwise
/// the grouped findings and the summary.
pub open spec fn text_segments(fs: Seq<FindingView>, colour: bool, elapsed: Seq<char>, now: int) -> Seq<
    SegmentView,
> {
    if fs.len() == 0 {
        seq![]
    } else {
        grouped_segments(fs, colour, now) + summary_segments(fs, elapsed, colour)
    }
}

/// The text output ends with its summary: after the line break that ends
/// the last finding (or its blame line) come a blank line, the sentence
/// counting the findings and the distinct files they are in, the elapsed
/// time, and a line break.
pub proof fn text_ends_with_summary(fs: Seq<FindingView>, colour: bool, elapsed: Seq<char>, now: int)
    requires
        fs.len() > 0,
    ensures
        exists|body: Seq<char>|
            texts(text_segments(fs, colour, elapsed, now)) == body + "\n\n"@ + summary_text(fs.len(), file_total(fs))
                + "  "@ + elapsed + "\n"@,
{
    let f = fs.last();
    let g = grouped_segments(fs, colour, now);
    let fseg = finding_segments(f, colour, now);
    let sep = if fs.len() >= 2 && !same_path(fs[fs.len() - 2].file, f.file) {
        seq![plain("\n"@)]
    } else {
        seq![]
    };
    assert(g == grouped_segments(fs.drop_last(), colour, now) + sep + fseg);
    assert(fseg.last() == plain("\n"@));
    assert(g.last() == plain("\n"@));
    assert(text_segments(fs, colour, elapsed, now) == g + summary_segments(fs, elapsed, colour));
    lemma_ends_with_summary(g, fs, elapsed, colour);
    let t = texts(g.drop_last());
    assert(texts(text_segments(fs, colour, elapsed, now)) == t + "\n\n"@ + summary_text(fs.len(), file_total(fs))
        + "  "@ + elapsed + "\n"@);
}

/// Writes findings as text grouped by file.
///
/// Each line looks like:
/// ```text
/// path/to/file.rs:12:3: TODO: message
/// path/to/file.rs:15:3: TODO(alice): message
/// ```
///
/// Files are separated by a blank line.  A summary line is printed at the end.
pub struct TextFormatter {
    /// When `true`, the segments carry colours; when `false`, plain text.
    colour: bool,
}

impl TextFormatter {
    /// Whether this formatter colours its output.
    pub closed spec fn uses_colour(&self) -> bool {
        self.colour
    }

    pub fn new(colour: bool) -> (r: Self)
        ensures
            r.uses_colour() == colour,
    {
        TextFormatter { colour }
    }

    fn location(f: &Finding) -> (r: String)
        ensures
            r@ == location_text(f@),
    {
        proof {
            reveal_strlit("");
        }
        let mut r = owned(":");
        push_decimal(&mut r, f.line as u64);
        if f.column > 1 {
            push_str(&mut r, ":");
            push_decimal(&mut r, f.column as u64);
        }
        push_str(&mut r, ":");
        assert(r@ =~= location_text(f@));
        r
    }

    fn label(f: &Finding) -> (r: String)
        ensures
            r@ == tag_label(f@),
    {
        let mut r = owned(f.tag.as_str());
        match &f.author {
            Some(a) => {
                push_str(&mut r, "(");
                push_str(&mut r, a.as_str());
                push_str(&mut r, "):");
            },
            None => {
                push_str(&mut r, ":");
            },
        }
        assert(r@ =~= tag_label(f@));
        r
    }

    fn write_blame(&self, out: &mut Vec<Segment>, f: &Finding, now: i64)
        ensures
            segment_views(final(out)@) == segment_views(old(out)@) + blame_segments(
                f@,
                self.colour,
                now as int,
            ),
    {
        proof {
            reveal_strlit("");
        }
        let ghost before = segment_views(out@);
        match (&f.blame_author, f.blame_date) {
            (Some(author), Some(date)) => {
                let mut line = owned("  └─ ");
                push_str(&mut line, author.as_str());
                push_str(&mut line, "  ·  ");
                push_str(&mut line, format_age_at(now, date).as_str());
                if let Some(c) = &f.blame_commit {
                    push_str(&mut line, "  (");
                    push_str(&mut line, c.as_str());
                    push_str(&mut line, ")");
                }
                assert(line@ =~= "  └─ "@ + author@ + "  ·  "@ + age_text(age_days(now as int, date as int)) + match f@.blame_commit {
                    Some(c) => "  ("@ + c + ")"@,
                    None => ""@,
                });
                push_styled(out, line, Style { fg: Some(Color::White), bold: false, dimmed: false }, self.colour);
                push_plain(out, owned("\n"));
            },
            _ => {},
        }
        assert(segment_views(out@) =~= before + blame_segments(f@, self.colour, now as int));
    }

    fn write_finding(&self, out: &mut Vec<Segment>, f: &Finding, now: i64)
        ensures
            segment_views(final(out)@) == segment_views(old(out)@) + finding_segments(
                f@,
                self.colour,
                now as int,
            ),
    {
        let ghost before = segment_views(out@);
        // Filename — bold cyan
        push_styled(out, owned(f.file.as_str()), Style { fg: Some(Color::Cyan), bold: true, dimmed: false }, self.colour);
        // :line:col — green
        push_styled(out, Self::location(f), Style { fg: Some(Color::Green), bold: false, dimmed: false }, self.colour);
        push_plain(out, owned(" "));
        // Tag — coloured by severity
        push_styled(out, Self::label(f), severity_style_exec(f.severity), self.colour);
        let ghost head = segment_views(out@);
        // Message — default colour
        if !f.message.as_str().is_empty() {
            let mut m = owned(" ");
            push_str(&mut m, f.message.as_str());
            push_plain(out, m);
        }
        let ghost with_message = segment_views(out@);
        push_plain(out, owned("\n"));
        let ghost with_break = segment_views(out@);
        // Blame line — shown only when blame data is available.
        self.write_blame(out, f, now);
        proof {
            let f4 = seq![
                styled(f@.file, file_style(), self.colour),
                styled(location_text(f@), fg(Color::Green), self.colour),
                plain(" "@),
                styled(tag_label(f@), severity_style(f@.severity), self.colour),
            ];
            let msg = if f@.message.len() > 0 {
                seq![plain(" "@ + f@.message)]
            } else {
                seq![]
            };
            assert(head =~= before + f4);
            assert(with_message =~= before + f4 + msg);
            assert(with_break =~= before + f4 + msg + seq![plain("\n"@)]);
            assert(segment_views(out@) =~= before + (f4 + msg + seq![plain("\n"@)] + blame_segments(f@, self.colour, now as int)));
        }
    }

    /// All findings grouped by file, then the summary line with the
    /// elapsed time `elapsed`; the ages of commits are seen at Unix time
    /// `now`.
    pub fn write_all_at(&self, findings: &[Finding], elapsed: &str, now: i64) -> (r: Vec<Segment>)
        ensures
            segment_views(r@) == text_segments(finding_views(findings@), self.uses_colour(), elapsed@, now as int),
    {
        let ghost v = finding_views(findings@);
        let mut out: Vec<Segment> = Vec::new();
        if findings.len() == 0 {
            assert(segment_views(out@) =~= Seq::<SegmentView>::empty());
            return out;
        }
        let mut i: usize = 0;
        assert(segment_views(out@) =~= grouped_segments(v.take(0), self.colour, now as int));
        while i < findings.len()
            invariant
                0 <= i <= findings@.len(),
                v == finding_views(findings@),
                segment_views(out@) == grouped_segments(v.take(i as int), self.colour, now as int),
            decreases findings@.len() - i,
        {
            let ghost before = segment_views(out@);
            assert(v.take(i + 1).drop_last() =~= v.take(i as int));
            let changed = i > 0 && !paths_equal(findings[i - 1].file.as_str(), findings[i].file.as_str());
            if changed {
                push_plain(&mut out, owned("\n"));  // blank line between file groups
            }
            let ghost mid = segment_views(out@);
            self.write_finding(&mut out, &findings[i], now);
            proof {
                let sep = if i >= 1 && !same_path(v[i - 1].file, v[i as int].file) {
                    seq![plain("\n"@)]
                } else {
                    seq![]
                };
                assert(mid =~= before + sep);
                assert(segment_views(out@) =~= before + sep + finding_segments(v[i as int], self.colour, now as int));
                assert(v.take(i + 1)[i as int] == v[i as int]);
            }
            i += 1;
        }
        assert(v.take(findings@.len() as int) =~= v);
        push_summary(&mut out, findings, elapsed, self.colour);
        out
    }

    /// All findings grouped by file, then the summary line with the
    /// elapsed time `elapsed`; the ages of commits are seen at the time the
    /// clock reads.
    pub fn write_all(&self, findings: &[Finding], elapsed: &str) -> (r: Vec<Segment>)
        ensures
            exists|now: i64| now >= 0 && segment_views(r@) == text_segments(finding_views(findings@), self.uses_colour(), elapsed@, now as int),
    {
        let now = unix_time_now();
        self.write_all_at(findings, elapsed, now)
    }
}

impl Formatter for TextFormatter {
    /// This formatter's output is made by [`TextFormatter::write_all`];
    /// through the trait it renders nothing.
    fn format(&self, findings: &[Finding]) -> (r: String)
        ensures
            r@ == Seq::<char>::empty(),
    {
        String::new()
    }
}

} // verus!
