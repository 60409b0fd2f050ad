//! Output formatting: the [`Formatter`] trait, the styled pieces that the
//! human-readable formats are made of, and the summary line they share.
//!
//! Writing to a terminal is left to the caller: a format here produces
//! either a plain `String` or a sequence of [`Segment`]s, each a piece of
//! text with the colour it is shown in.

pub mod github;
pub mod table;
pub mod text;

use vstd::prelude::*;

use crate::blame::plural;
use crate::matcher::{distinct_files, distinct_paths, files_of, finding_views, Finding, FindingView};
use crate::text::{decimal, owned, push_decimal, push_str};

verus! {

/// Formats a slice of [`Finding`]s.
pub trait Formatter {
    /// All findings, rendered in this format.
    fn format(&self, findings: &[Finding]) -> String;
}

// ── Styled segments ───────────────────────────────────────────────────────────

/// A terminal foreground colour.
#[derive(Debug, Clone, Copy, PartialEq, Eq, Structural)]
pub enum Color {
    Cyan,
    Green,
    Red,
    Yellow,
    Blue,
    White,
}

/// How a piece of text is shown: a foreground colour, bold, dimmed.
#[derive(Debug, Clone, Copy, PartialEq, Eq, Structural)]
pub struct Style {
    pub fg: Option<Color>,
    pub bold: bool,
    pub dimmed: bool,
}

/// A piece of output and the style it is shown in; `None` leaves the
/// terminal's colours as they are.
#[derive(Debug)]
pub struct Segment {
    pub text: String,
    pub style: Option<Style>,
}

/// The mathematical value of a [`Segment`].
pub struct SegmentView {
    pub text: Seq<char>,
    pub style: Option<Style>,
}

impl View for Segment {
    type V = SegmentView;

    open spec fn view(&self) -> SegmentView {
        SegmentView { text: self.text@, style: self.style }
    }
}

/// The views of a sequence of segments.
pub open spec fn segment_views(s: Seq<Segment>) -> Seq<SegmentView> {
    s.map_values(|x: Segment| x@)
}

/// A segment of `text` shown in `style` when colour is on, and plainly
/// otherwise.
pub open spec fn styled(text: Seq<char>, style: Style, colour: bool) -> SegmentView {
    SegmentView { text, style: if colour { Some(style) } else { None } }
}

/// A segment of `text` shown plainly.
pub open spec fn plain(text: Seq<char>) -> SegmentView {
    SegmentView { text, style: None }
}

/// The text of a sequence of segments, one after the other.
pub open spec fn texts(s: Seq<SegmentView>) -> Seq<char>
    decreases s.len(),
{
    if s.len() == 0 {
        seq![]
    } else {
        texts(s.drop_last()) + s.last().text
    }
}

/// The text of segments one after the other is the texts one after the other.
pub proof fn lemma_texts_concat(a: Seq<SegmentView>, b: Seq<SegmentView>)
    ensures
        texts(a + b) == texts(a) + texts(b),
    decreases b.len(),
{
    if b.len() == 0 {
        assert(a + b =~= a);
        assert(texts(a) + texts(b) =~= texts(a));
    } else {
        assert((a + b).drop_last() =~= a + b.drop_last());
        lemma_texts_concat(a, b.drop_last());
        assert(texts(a + b) =~= texts(a) + texts(b));
    }
}

/// The text of one segment is its text.
pub proof fn lemma_texts_one(x: SegmentView)
    ensures
        texts(seq![x]) == x.text,
{
    let one = seq![x];
    assert(one.drop_last() =~= Seq::<SegmentView>::empty());
    assert(one.last() == x);
    assert(texts(Seq::<SegmentView>::empty()) == Seq::<char>::empty());
    assert(texts(one) == texts(one.drop_last()) + x.text);
    assert(texts(one) =~= x.text);
}

/// The text of `segments`, without styles: what a terminal without colour
/// shows.
pub fn plain_text(segments: &[Segment]) -> (r: String)
    ensures
        r@ == texts(segment_views(segments@)),
{
    let ghost v = segment_views(segments@);
    let mut r = String::new();
    let mut i: usize = 0;
    while i < segments.len()
        invariant
            0 <= i <= segments@.len(),
            v == segment_views(segments@),
            r@ == texts(v.take(i as int)),
        decreases segments@.len() - i,
    {
        assert(v.take(i + 1).drop_last() =~= v.take(i as int));
        push_str(&mut r, segments[i].text.as_str());
        i += 1;
    }
    assert(v.take(segments@.len() as int) =~= v);
    r
}

/// Appends a segment of `text` in `style` when colour is on, plain otherwise.
pub(crate) fn push_styled(out: &mut Vec<Segment>, text: String, style: Style, colour: bool)
    ensures
        segment_views(final(out)@) == segment_views(old(out)@).push(styled(text@, style, colour)),
{
    let ghost before = out@;
    out.push(Segment { text, style: if colour { Some(style) } else { None } });
    assert(segment_views(out@) =~= segment_views(before).push(styled(text@, style, colour)));
}

/// Appends a plain segment of `text`.
pub(crate) fn push_plain(out: &mut Vec<Segment>, text: String)
    ensures
        segment_views(final(out)@) == segment_views(old(out)@).push(plain(text@)),
{
    let ghost before = out@;
    out.push(Segment { text, style: None });
    assert(segment_views(out@) =~= segment_views(before).push(plain(text@)));
}

/// A style with only a foreground colour.
pub open spec fn fg(c: Color) -> Style {
    Style { fg: Some(c), bold: false, dimmed: false }
}

/// The bold style.
pub open spec fn bold() -> Style {
    Style { fg: None, bold: true, dimmed: false }
}

/// The dimmed style.
pub open spec fn dimmed() -> Style {
    Style { fg: None, bold: false, dimmed: true }
}

// ── Summary ───────────────────────────────────────────────────────────────────

/// The number of distinct files the findings are in.
pub open spec fn file_total(fs: Seq<FindingView>) -> nat {
    distinct_paths(files_of(fs)).len()
}

/// The number of distinct files the findings are in.
pub fn file_count(findings: &[Finding]) -> (r: usize)
    ensures
        r == file_total(finding_views(findings@)),
{
    distinct_files(findings).len()
}

/// `"Found N annotation(s) across M file(s)."`
pub open spec fn summary_text(n: nat, files: nat) -> Seq<char> {
    "Found "@ + decimal(n) + " annotation"@ + plural(n as int) + " across "@ + decimal(files)
        + " file"@ + plural(files as int) + "."@
}

/// The summary line's sentence for `n` findings in `files` files.
pub(crate) fn summary(n: usize, files: usize) -> (r: String)
    ensures
        r@ == summary_text(n as nat, files as nat),
{
    let mut r = owned("Found ");
    push_decimal(&mut r, n as u64);
    push_str(&mut r, " annotation");
    if n != 1 {
        push_str(&mut r, "s");
    }
    push_str(&mut r, " across ");
    push_decimal(&mut r, files as u64);
    push_str(&mut r, " file");
    if files != 1 {
        push_str(&mut r, "s");
    }
    push_str(&mut r, ".");
    proof {
        reveal_strlit("");
    }
    assert(r@ =~= summary_text(n as nat, files as nat));
    r
}

/// The closing segments of the human-readable formats: a blank line, the
/// summary sentence in bold, the elapsed time dimmed, and a line break.
pub open spec fn summary_segments(fs: Seq<FindingView>, elapsed: Seq<char>, colour: bool) -> Seq<
    SegmentView,
> {
    seq![
        plain("\n"@),
        styled(summary_text(fs.len(), file_total(fs)), bold(), colour),
        styled("  "@ + elapsed, dimmed(), colour),
        plain("\n"@),
    ]
}

/// The text of the closing segments: a blank line, then the summary
/// sentence and the elapsed time on a line of their own.
pub(crate) proof fn lemma_summary_texts(fs: Seq<FindingView>, elapsed: Seq<char>, colour: bool)
    ensures
        texts(summary_segments(fs, elapsed, colour)) == "\n"@ + summary_text(fs.len(), file_total(fs)) + "  "@
            + elapsed + "\n"@,
{
    let a = plain("\n"@);
    let b = styled(summary_text(fs.len(), file_total(fs)), bold(), colour);
    let c = styled("  "@ + elapsed, dimmed(), colour);
    let d = plain("\n"@);
    assert(summary_segments(fs, elapsed, colour) =~= seq![a] + seq![b] + seq![c] + seq![d]);
    lemma_texts_one(a);
    lemma_texts_one(b);
    lemma_texts_one(c);
    lemma_texts_one(d);
    lemma_texts_concat(seq![a], seq![b]);
    lemma_texts_concat(seq![a] + seq![b], seq![c]);
    lemma_texts_concat(seq![a] + seq![b] + seq![c], seq![d]);
    assert(texts(summary_segments(fs, elapsed, colour)) =~= "\n"@ + summary_text(fs.len(), file_total(fs))
        + "  "@ + elapsed + "\n"@);
}

/// Output that is `body` ending in a line break, then the closing
/// segments, ends with a blank line and the summary line.
pub(crate) proof fn lemma_ends_with_summary(
    body: Seq<SegmentView>,
    fs: Seq<FindingView>,
    elapsed: Seq<char>,
    colour: bool,
)
    requires
        body.len() > 0,
        body.last().text == "\n"@,
    ensures
        texts(body + summary_segments(fs, elapsed, colour)) == texts(body.drop_last()) + "\n\n"@
            + summary_text(fs.len(), file_total(fs)) + "  "@ + elapsed + "\n"@,
{
    lemma_texts_concat(body, summary_segments(fs, elapsed, colour));
    lemma_summary_texts(fs, elapsed, colour);
    assert(texts(body) == texts(body.drop_last()) + body.last().text);
    reveal_strlit("\n");
    reveal_strlit("\n\n");
    assert(texts(body + summary_segments(fs, elapsed, colour)) =~= texts(body.drop_last()) + "\n\n"@
        + summary_text(fs.len(), file_total(fs)) + "  "@ + elapsed + "\n"@);
}

/// Appends the closing segments (see [`summary_segments`]).
pub(crate) fn push_summary(out: &mut Vec<Segment>, findings: &[Finding], elapsed: &str, colour: bool)
    ensures
        segment_views(final(out)@) == segment_views(old(out)@) + summary_segments(
            finding_views(findings@),
            elapsed@,
            colour,
        ),
{
    let ghost before = segment_views(out@);
    push_plain(out, owned("\n"));
    let files = file_count(findings);
    push_styled(out, summary(findings.len(), files), Style { fg: None, bold: true, dimmed: false }, colour);
    let mut e = owned("  ");
    push_str(&mut e, elapsed);
    push_styled(out, e, Style { fg: None, bold: false, dimmed: true }, colour);
    push_plain(out, owned("\n"));
    assert(segment_views(out@) =~= before + summary_segments(
        finding_views(findings@),
        elapsed@,
        colour,
    ));
}

} // verus!
