//! GitHub Actions workflow command output.
//!
//! Each finding becomes one `::notice`, `::warning` or `::error` line that
//! GitHub Actions renders as an inline annotation on the file and line:
//!
//! `::LEVEL file=PATH,line=LINE,col=COL,title=TAG::MESSAGE`

use vstd::prelude::*;

use super::Formatter;
use crate::blame::{age_days, age_text, format_age_at, unix_time_now};
use crate::matcher::{finding_views, Finding, FindingView, Severity};
use crate::text::{
    chars_of, count_char, decimal, is_digit, lemma_count_absent, lemma_count_concat,
    lemma_decimal_digits, owned, push_decimal, push_str,
};

verus! {

/// The workflow command level of a severity.
pub open spec fn level_text(severity: Severity) -> Seq<char> {
    match severity {
        Severity::Error => "error"@,
        Severity::Warning => "warning"@,
        Severity::Info => "notice"@,
    }
}

/// Maps annotation severity to a GitHub Actions workflow command level.
pub fn level(severity: Severity) -> (r: &'static str)
    ensures
        r@ == level_text(severity),
{
    match severity {
        Severity::Error => "error",
        Severity::Warning => "warning",
        Severity::Info => "notice",
    }
}

/// How one character is written in a command value: `%`, CR and LF are
/// percent-encoded everywhere, and `:` and `,` too inside a property.
pub open spec fn escape_char(c: char, property: bool) -> Seq<char> {
    if c == '%' {
        "%25"@
    } else if c == '\r' {
        "%0D"@
    } else if c == '\n' {
        "%0A"@
    } else if property && c == ':' {
        "%3A"@
    } else if property && c == ',' {
        "%2C"@
    } else {
        seq![c]
    }
}

/// `s` with each character written as [`escape_char`] says.
pub open spec fn escaped(s: Seq<char>, property: bool) -> Seq<char>
    decreases s.len(),
{
    if s.len() == 0 {
        seq![]
    } else {
        escaped(s.drop_last(), property) + escape_char(s.last(), property)
    }
}

fn escape_char_exec(c: char, property: bool) -> (r: &'static str)
    ensures
        c == '%' ==> r@ == "%25"@,
        c == '\r' ==> r@ == "%0D"@,
        c == '\n' ==> r@ == "%0A"@,
        property && c == ':' ==> r@ == "%3A"@,
        property && c == ',' ==> r@ == "%2C"@,
{
    if c == '%' {
        "%25"
    } else if c == '\r' {
        "%0D"
    } else if c == '\n' {
        "%0A"
    } else if property && c == ':' {
        "%3A"
    } else {
        "%2C"
    }
}

fn escape(s: &str, property: bool) -> (r: String)
    ensures
        r@ == escaped(s@, property),
{
    let cs = chars_of(s);
    let mut r = String::new();
    let mut i: usize = 0;
    while i < cs.len()
        invariant
            0 <= i <= cs@.len(),
            cs@ == s@,
            r@ == escaped(cs@.take(i as int), property),
        decreases cs@.len() - i,
    {
        let c = cs[i];
        assert(cs@.take(i + 1).drop_last() =~= cs@.take(i as int));
        if c == '%' || c == '\r' || c == '\n' || (property && (c == ':' || c == ',')) {
            push_str(&mut r, escape_char_exec(c, property));
        } else {
            crate::text::push_char(&mut r, c);
            assert(r@ =~= escaped(cs@.take(i + 1), property));
        }
        i += 1;
    }
    assert(cs@.take(cs@.len() as int) =~= cs@);
    r
}

/// Escapes special characters in GitHub Actions workflow command values.
///
/// The characters `,`, `:`, `%`, `\r`, `\n` must be percent-encoded inside
/// property values to avoid breaking the command parser.
pub fn escape_property(s: &str) -> (r: String)
    ensures
        r@ == escaped(s@, true),
{
    escape(s, true)
}

/// Escapes special characters in the workflow command data (the `::message` part).
pub fn escape_data(s: &str) -> (r: String)
    ensures
        r@ == escaped(s@, false),
{
    escape(s, false)
}

/// The annotation's title: the tag, with the author in parentheses when
/// there is one.
pub open spec fn title_text(f: FindingView) -> Seq<char> {
    match f.author {
        Some(a) => f.tag + "("@ + a + ")"@,
        None => f.tag,
    }
}

/// What blame data adds to the message, before escaping: the author, the
/// commit's age seen at Unix time `now`, and the commit, in brackets.
/// Empty unless both the author and the date are known.
pub open spec fn blame_note(f: FindingView, now: int) -> Seq<char> {
    match (f.blame_author, f.blame_date) {
        (Some(a), Some(d)) => " ["@ + a + " · "@ + age_text(age_days(now, d)) + match f.blame_commit {
            Some(c) => " ("@ + c + ")"@,
            None => ""@,
        } + "]"@,
        _ => ""@,
    }
}

/// The start of a finding's workflow command, up to the `::` before its
/// message: `::LEVEL file=PATH,line=LINE,col=COL,title=TITLE::`.
pub open spec fn github_head(f: FindingView) -> Seq<char> {
    "::"@ + level_text(f.severity) + " file="@ + escaped(f.file, true) + ",line="@ + decimal(
        f.line as nat,
    ) + ",col="@ + decimal(f.column as nat) + ",title="@ + escaped(title_text(f), true) + "::"@
}

/// The workflow command for one finding, ages seen at Unix time `now`.
pub open spec fn github_line(f: FindingView, now: int) -> Seq<char> {
    github_head(f) + escaped(f.message, false) + escaped(blame_note(f, now), false) + "\n"@
}

/// The workflow commands for all findings, in order.
pub open spec fn github_text(fs: Seq<FindingView>, now: int) -> Seq<char>
    decreases fs.len(),
{
    if fs.len() == 0 {
        seq![]
    } else {
        github_text(fs.drop_last(), now) + github_line(fs.last(), now)
    }
}

fn blame_note_exec(f: &Finding, now: i64) -> (r: String)
    ensures
        r@ == blame_note(f@, now as int),
{
    proof {
        reveal_strlit("");
    }
    match (&f.blame_author, f.blame_date) {
        (Some(author), Some(date)) => {
            let mut r = owned(" [");
            push_str(&mut r, author.as_str());
            push_str(&mut r, " · ");
            let age = format_age_at(now, date);
            push_str(&mut r, age.as_str());
            match &f.blame_commit {
                Some(c) => {
                    push_str(&mut r, " (");
                    push_str(&mut r, c.as_str());
                    push_str(&mut r, ")");
                },
                None => {},
            }
            push_str(&mut r, "]");
            assert(r@ =~= blame_note(f@, now as int));
            r
        },
        _ => String::new(),
    }
}

fn github_line_exec(f: &Finding, now: i64) -> (r: String)
    ensures
        r@ == github_line(f@, now as int),
{
    let mut title = String::new();
    push_str(&mut title, f.tag.as_str());
    if let Some(author) = &f.author {
        push_str(&mut title, "(");
        push_str(&mut title, author.as_str());
        push_str(&mut title, ")");
    }
    assert(title@ =~= title_text(f@));
    let mut r = owned("::");
    push_str(&mut r, level(f.severity));
    push_str(&mut r, " file=");
    push_str(&mut r, escape_property(f.file.as_str()).as_str());
    push_str(&mut r, ",line=");
    push_decimal(&mut r, f.line as u64);
    push_str(&mut r, ",col=");
    push_decimal(&mut r, f.column as u64);
    push_str(&mut r, ",title=");
    push_str(&mut r, escape_property(title.as_str()).as_str());
    push_str(&mut r, "::");
    push_str(&mut r, escape_data(f.message.as_str()).as_str());
    push_str(&mut r, escape_data(blame_note_exec(f, now).as_str()).as_str());
    push_str(&mut r, "\n");
    assert(r@ =~= github_line(f@, now as int));
    r
}

/// Writes findings as GitHub Actions workflow annotation commands.
pub struct GithubFormatter;

impl GithubFormatter {
    /// The workflow commands for `findings`, one line each, with the ages
    /// of commits seen at Unix time `now`.
    pub fn format_at(&self, findings: &[Finding], now: i64) -> (r: String)
        ensures
            r@ == github_text(finding_views(findings@), now as int),
    {
        let ghost v = finding_views(findings@);
        let mut r = String::new();
        let mut i: usize = 0;
        while i < findings.len()
            invariant
                0 <= i <= findings@.len(),
                v == finding_views(findings@),
                r@ == github_text(v.take(i as int), now as int),
            decreases findings@.len() - i,
        {
            assert(v.take(i + 1).drop_last() =~= v.take(i as int));
            push_str(&mut r, github_line_exec(&findings[i], now).as_str());
            i += 1;
        }
        assert(v.take(findings@.len() as int) =~= v);
        r
    }
}

impl Formatter for GithubFormatter {
    /// The workflow commands for `findings`, with the ages of commits seen
    /// at the time the clock reads.
    fn format(&self, findings: &[Finding]) -> (r: String)
        ensures
            exists|now: i64| now >= 0 && r@ == github_text(finding_views(findings@), now as int),
    {
        let now = unix_time_now();
        self.format_at(findings, now)
    }
}

// ── One line per finding ─────────────────────────────────────────────────────

/// Whether `c` never stands in `s`.
pub open spec fn lacks(s: Seq<char>, c: char) -> bool {
    forall|i: int| 0 <= i < s.len() ==> s[i] != c
}

pub(crate) proof fn lemma_lacks_concat(a: Seq<char>, b: Seq<char>, c: char)
    requires
        lacks(a, c),
        lacks(b, c),
    ensures
        lacks(a + b, c),
{
    assert forall|i: int| 0 <= i < (a + b).len() implies (a + b)[i] != c by {
        if i >= a.len() {
            assert((a + b)[i] == b[i - a.len()]);
        }
    }
}

/// Escaped text holds no line break.
proof fn lemma_escaped_lacks_newline(s: Seq<char>, property: bool)
    ensures
        lacks(escaped(s, property), '\n'),
    decreases s.len(),
{
    reveal_strlit("%25");
    reveal_strlit("%0D");
    reveal_strlit("%0A");
    reveal_strlit("%3A");
    reveal_strlit("%2C");
    if s.len() > 0 {
        lemma_escaped_lacks_newline(s.drop_last(), property);
        lemma_lacks_concat(escaped(s.drop_last(), property), escape_char(s.last(), property), '\n');
    }
}

proof fn lemma_decimal_lacks_newline(n: nat)
    ensures
        lacks(decimal(n), '\n'),
{
    lemma_decimal_digits(n);
    assert forall|i: int| 0 <= i < decimal(n).len() implies decimal(n)[i] != '\n' by {
        assert(is_digit(decimal(n)[i]));
    }
}

/// Each finding becomes exactly one line of workflow commands: whatever
/// its path, tag, author, message or blame data hold, the output has one
/// line break per finding.
pub proof fn github_one_line_per_finding(fs: Seq<FindingView>, now: int)
    ensures
        count_char(github_text(fs, now), '\n') == fs.len(),
    decreases fs.len(),
{
    if fs.len() > 0 {
        let f = fs.last();
        github_one_line_per_finding(fs.drop_last(), now);
        reveal_strlit("::");
        reveal_strlit(" file=");
        reveal_strlit(",line=");
        reveal_strlit(",col=");
        reveal_strlit(",title=");
        reveal_strlit("\n");
        reveal_strlit("error");
        reveal_strlit("warning");
        reveal_strlit("notice");
        lemma_escaped_lacks_newline(f.file, true);
        lemma_escaped_lacks_newline(title_text(f), true);
        lemma_escaped_lacks_newline(f.message, false);
        lemma_escaped_lacks_newline(blame_note(f, now), false);
        lemma_decimal_lacks_newline(f.line as nat);
        lemma_decimal_lacks_newline(f.column as nat);
        let p1 = "::"@ + level_text(f.severity);
        lemma_lacks_concat("::"@, level_text(f.severity), '\n');
        let p2 = p1 + " file="@;
        lemma_lacks_concat(p1, " file="@, '\n');
        let p3 = p2 + escaped(f.file, true);
        lemma_lacks_concat(p2, escaped(f.file, true), '\n');
        let p4 = p3 + ",line="@;
        lemma_lacks_concat(p3, ",line="@, '\n');
        let p5 = p4 + decimal(f.line as nat);
        lemma_lacks_concat(p4, decimal(f.line as nat), '\n');
        let p6 = p5 + ",col="@;
        lemma_lacks_concat(p5, ",col="@, '\n');
        let p7 = p6 + decimal(f.column as nat);
        lemma_lacks_concat(p6, decimal(f.column as nat), '\n');
        let p8 = p7 + ",title="@;
        lemma_lacks_concat(p7, ",title="@, '\n');
        let p9 = p8 + escaped(title_text(f), true);
        lemma_lacks_concat(p8, escaped(title_text(f), true), '\n');
        let p10 = p9 + "::"@;
        lemma_lacks_concat(p9, "::"@, '\n');
        let p11 = p10 + escaped(f.message, false);
        lemma_lacks_concat(p10, escaped(f.message, false), '\n');
        let p12 = p11 + escaped(blame_note(f, now), false);
        lemma_lacks_concat(p11, escaped(blame_note(f, now), false), '\n');
        assert(github_line(f, now) == p12 + "\n"@);
        lemma_count_absent(p12, '\n');
        lemma_count_concat(p12, "\n"@, '\n');
        assert(count_char("\n"@, '\n') == 1) by {
            reveal_strlit("\n");
            assert("\n"@.len() == 1);
            assert("\n"@.last() == '\n');
            assert("\n"@.drop_last() =~= Seq::<char>::empty());
            assert(count_char(Seq::<char>::empty(), '\n') == 0);
        }
        lemma_count_concat(github_text(fs.drop_last(), now), github_line(f, now), '\n');
    }
}

/// Blame data is added to an annotation's message only when its author
/// and its date are both known: otherwise the command ends with the
/// escaped message and its line break.  No findings give no output.
pub proof fn blame_note_needs_author_and_date(f: FindingView, now: int)
    ensures
        !(f.blame_author is Some && f.blame_date is Some) ==> github_line(f, now) == github_head(f)
            + escaped(f.message, false) + "\n"@,
        github_text(Seq::<FindingView>::empty(), now) == Seq::<char>::empty(),
{
    reveal_strlit("");
    if !(f.blame_author is Some && f.blame_date is Some) {
        assert(blame_note(f, now) =~= Seq::<char>::empty());
        assert(escaped(Seq::<char>::empty(), false) =~= Seq::<char>::empty());
        assert(github_line(f, now) =~= github_head(f) + escaped(f.message, false) + "\n"@);
    }
}

/// Escaping leaves no character that would end a value early: an escaped
/// property holds no `,`, `:`, CR or LF, and escaped data no CR or LF.
pub proof fn escaped_values_keep_their_place(s: Seq<char>)
    ensures
        lacks(escaped(s, true), ','),
        lacks(escaped(s, true), ':'),
        lacks(escaped(s, true), '\r'),
        lacks(escaped(s, true), '\n'),
        lacks(escaped(s, false), '\r'),
        lacks(escaped(s, false), '\n'),
    decreases s.len(),
{
    reveal_strlit("%25");
    reveal_strlit("%0D");
    reveal_strlit("%0A");
    reveal_strlit("%3A");
    reveal_strlit("%2C");
    if s.len() > 0 {
        escaped_values_keep_their_place(s.drop_last());
        let (p, c) = (s.drop_last(), s.last());
        lemma_lacks_concat(escaped(p, true), escape_char(c, true), ',');
        lemma_lacks_concat(escaped(p, true), escape_char(c, true), ':');
        lemma_lacks_concat(escaped(p, true), escape_char(c, true), '\r');
        lemma_lacks_concat(escaped(p, true), escape_char(c, true), '\n');
        lemma_lacks_concat(escaped(p, false), escape_char(c, false), '\r');
        lemma_lacks_concat(escaped(p, false), escape_char(c, false), '\n');
    }
}

} // verus!
