//! Tag definitions, the multi-pattern matcher, and the [`Finding`] type that
//! represents a single located annotation.

use vstd::prelude::*;
use vstd::string::*;
use vstd::utf8::*;

use aho_corasick::AhoCorasick;
use regex::Regex;

use crate::error::TodorkError;
use crate::cli::strings_view;
use crate::order::{paths_equal, same_path};
use crate::text::{owned, str_trim, trim};

verus! {

broadcast use vstd::utf8::encode_utf8_valid_utf8, vstd::utf8::encode_utf8_decode_utf8;

// ── Severity ──────────────────────────────────────────────────────────────────

/// How urgent an annotation is considered to be.
#[derive(Debug, Clone, Copy, PartialEq, Eq, Structural)]
pub enum Severity {
    /// Blocking issues that should be fixed before shipping (FIXME, BUG, XXX).
    Error,
    /// Things that need attention but are not yet blocking (TODO, HACK, DEPRECATED).
    Warning,
    /// Informational annotations (NOTE, OPTIMIZE).
    Info,
}

// ── Tag ───────────────────────────────────────────────────────────────────────

/// A single annotation keyword with its associated severity.
#[derive(Debug, Clone, PartialEq, Eq)]
pub struct Tag {
    /// The keyword exactly as it appears in source code (e.g. `"TODO"`).
    pub name: String,
    /// Severity level used for output colouring.
    pub severity: Severity,
}

/// The mathematical value of a [`Tag`].
pub struct TagView {
    pub name: Seq<char>,
    pub severity: Severity,
}

impl View for Tag {
    type V = TagView;

    open spec fn view(&self) -> TagView {
        TagView { name: self.name@, severity: self.severity }
    }
}

/// An exact copy of a tag.
pub(crate) fn copy_tag(t: &Tag) -> (r: Tag)
    ensures
        r@ == t@,
{
    Tag { name: t.name.clone(), severity: t.severity }
}

/// The default set of annotation tags, in the order in which they are
/// tried at one position of a line.
pub open spec fn default_tag_views() -> Seq<TagView> {
    seq![
        TagView { name: "FIXME"@, severity: Severity::Error },
        TagView { name: "BUG"@, severity: Severity::Error },
        TagView { name: "XXX"@, severity: Severity::Error },
        TagView { name: "TODO"@, severity: Severity::Warning },
        TagView { name: "HACK"@, severity: Severity::Warning },
        TagView { name: "DEPRECATED"@, severity: Severity::Warning },
        TagView { name: "NOTE"@, severity: Severity::Info },
        TagView { name: "OPTIMIZE"@, severity: Severity::Info },
    ]
}

/// The views of a sequence of tags.
pub open spec fn tag_views(tags: Seq<Tag>) -> Seq<TagView> {
    tags.map_values(|t: Tag| t@)
}

fn default_tag(name: &str, severity: Severity) -> (r: Tag)
    ensures
        r@ == (TagView { name: name@, severity }),
{
    Tag { name: owned(name), severity }
}

/// The default set of annotation tags recognised by todork.
pub fn default_tags() -> (r: Vec<Tag>)
    ensures
        tag_views(r@) == default_tag_views(),
{
    let mut v: Vec<Tag> = Vec::new();
    v.push(default_tag("FIXME", Severity::Error));
    v.push(default_tag("BUG", Severity::Error));
    v.push(default_tag("XXX", Severity::Error));
    v.push(default_tag("TODO", Severity::Warning));
    v.push(default_tag("HACK", Severity::Warning));
    v.push(default_tag("DEPRECATED", Severity::Warning));
    v.push(default_tag("NOTE", Severity::Info));
    v.push(default_tag("OPTIMIZE", Severity::Info));
    assert(tag_views(v@) =~= default_tag_views());
    v
}

// ── Finding ───────────────────────────────────────────────────────────────────

/// A single located annotation in a source file.
#[derive(Debug, Clone, PartialEq, Eq)]
pub struct Finding {
    /// Path to the file that contains the annotation.
    pub file: String,
    /// 1-based line number.
    pub line: usize,
    /// 1-based byte column of the tag's first character.
    pub column: usize,
    /// The matched tag keyword (e.g. `"TODO"`).
    pub tag: String,
    /// Severity inherited from the matched [`Tag`].
    pub severity: Severity,
    /// Optional author extracted from `TAG(author):` syntax.
    pub author: Option<String>,
    /// The text that follows the tag marker on the same line.
    pub message: String,
    /// Author (with e-mail) of the commit that last touched the line, when known.
    pub blame_author: Option<String>,
    /// Unix time of that commit, when known.
    pub blame_date: Option<i64>,
    /// Short hash of that commit, when known.
    pub blame_commit: Option<String>,
}

/// The mathematical value of a [`Finding`].
pub struct FindingView {
    pub file: Seq<char>,
    pub line: int,
    pub column: int,
    pub tag: Seq<char>,
    pub severity: Severity,
    pub author: Option<Seq<char>>,
    pub message: Seq<char>,
    pub blame_author: Option<Seq<char>>,
    pub blame_date: Option<int>,
    pub blame_commit: Option<Seq<char>>,
}

/// The view of an optional string.
pub open spec fn opt_view(o: Option<String>) -> Option<Seq<char>> {
    match o {
        Some(s) => Some(s@),
        None => None,
    }
}

impl View for Finding {
    type V = FindingView;

    open spec fn view(&self) -> FindingView {
        FindingView {
            file: self.file@,
            line: self.line as int,
            column: self.column as int,
            tag: self.tag@,
            severity: self.severity,
            author: opt_view(self.author),
            message: self.message@,
            blame_author: opt_view(self.blame_author),
            blame_date: match self.blame_date {
                Some(d) => Some(d as int),
                None => None,
            },
            blame_commit: opt_view(self.blame_commit),
        }
    }
}

/// An exact copy of an optional string.
pub(crate) fn copy_opt(o: &Option<String>) -> (r: Option<String>)
    ensures
        opt_view(r) == opt_view(*o),
{
    match o {
        Some(s) => Some(s.clone()),
        None => None,
    }
}

/// An exact copy of a finding.
pub(crate) fn copy_finding(f: &Finding) -> (r: Finding)
    ensures
        r@ == f@,
{
    Finding {
        file: owned(f.file.as_str()),
        line: f.line,
        column: f.column,
        tag: owned(f.tag.as_str()),
        severity: f.severity,
        author: copy_opt(&f.author),
        message: owned(f.message.as_str()),
        blame_author: copy_opt(&f.blame_author),
        blame_date: f.blame_date,
        blame_commit: copy_opt(&f.blame_commit),
    }
}

/// The views of a sequence of findings.
pub open spec fn finding_views(fs: Seq<Finding>) -> Seq<FindingView> {
    fs.map_values(|f: Finding| f@)
}

/// The files of a sequence of findings, one per finding.
pub open spec fn files_of(fs: Seq<FindingView>) -> Seq<Seq<char>> {
    fs.map_values(|f: FindingView| f.file)
}

/// Whether `list` holds a path that is the same as `p`.
pub open spec fn has_path(list: Seq<Seq<char>>, p: Seq<char>) -> bool {
    exists|i: int| 0 <= i < list.len() && same_path(#[trigger] list[i], p)
}

/// The paths of `s`, each file once, in the order they first appear: a
/// path is left out when an earlier one is the same path.
pub open spec fn distinct_paths(s: Seq<Seq<char>>) -> Seq<Seq<char>>
    decreases s.len(),
{
    if s.len() == 0 {
        seq![]
    } else if has_path(distinct_paths(s.drop_last()), s.last()) {
        distinct_paths(s.drop_last())
    } else {
        distinct_paths(s.drop_last()).push(s.last())
    }
}

/// Whether `list` holds a path that is the same as `p`.
fn holds_path(list: &Vec<String>, p: &str) -> (r: bool)
    ensures
        r == has_path(strings_view(list@), p@),
{
    let ghost lv = strings_view(list@);
    let mut j: usize = 0;
    while j < list.len()
        invariant
            0 <= j <= list@.len(),
            lv == strings_view(list@),
            forall|k: int| 0 <= k < j ==> !same_path(#[trigger] lv[k], p@),
        decreases list@.len() - j,
    {
        assert(lv[j as int] == list@[j as int]@);
        if paths_equal(list[j].as_str(), p) {
            return true;
        }
        j += 1;
    }
    false
}

/// The files of the findings, each once (paths compared by their
/// components), in the order they first appear.
pub fn distinct_files(findings: &[Finding]) -> (r: Vec<String>)
    ensures
        strings_view(r@) == distinct_paths(files_of(finding_views(findings@))),
{
    let ghost fv = files_of(finding_views(findings@));
    let mut r: Vec<String> = Vec::new();
    let mut i: usize = 0;
    assert(fv.take(0) =~= Seq::<Seq<char>>::empty());
    assert(strings_view(r@) =~= Seq::<Seq<char>>::empty());
    while i < findings.len()
        invariant
            0 <= i <= findings@.len(),
            fv == files_of(finding_views(findings@)),
            fv.len() == findings@.len(),
            strings_view(r@) == distinct_paths(fv.take(i as int)),
        decreases findings@.len() - i,
    {
        let f = findings[i].file.as_str();
        assert(fv[i as int] == f@);
        assert(fv.take(i + 1).drop_last() =~= fv.take(i as int));
        assert(fv.take(i + 1).last() == f@);
        if !holds_path(&r, f) {
            let ghost before = r@;
            r.push(owned(f));
            assert(strings_view(r@) =~= strings_view(before).push(f@));
        }
        i += 1;
    }
    assert(fv.take(findings@.len() as int) =~= fv);
    r
}

// ── Matching ──────────────────────────────────────────────────────────────────

/// Whether `pat` occurs in `hay` at byte offset `pos`.
pub open spec fn occurs_at(hay: Seq<u8>, pat: Seq<u8>, pos: int) -> bool {
    0 <= pos && pos + pat.len() <= hay.len() && hay.subrange(pos, pos + pat.len()) == pat
}

/// The first pattern, from index `k` on, that occurs in `hay` at `pos`.
pub open spec fn first_pattern_at(pats: Seq<Seq<u8>>, hay: Seq<u8>, pos: int, k: int) -> Option<
    int,
>
    decreases pats.len() - k,
{
    if k < 0 || k >= pats.len() {
        None
    } else if occurs_at(hay, pats[k], pos) {
        Some(k)
    } else {
        first_pattern_at(pats, hay, pos, k + 1)
    }
}

/// Leftmost-first, non-overlapping matches of `pats` in `hay` from byte `pos`
/// on, as `(pattern, start, end)`: the leftmost position where some pattern
/// occurs, the earliest such pattern in the list, then on from its end.  An
/// empty match is reported and the search moves on one byte, unless it
/// lies at `last_end`, the end of the match before it, where it is passed
/// over.
pub open spec fn leftmost_first_from(pats: Seq<Seq<u8>>, hay: Seq<u8>, pos: int, last_end: int) -> Seq<
    (int, int, int),
>
    decreases hay.len() + 1 - pos,
{
    if pos < 0 || pos > hay.len() {
        seq![]
    } else {
        match first_pattern_at(pats, hay, pos, 0) {
            Some(k) => {
                let end = pos + pats[k].len();
                if pos < end && end <= hay.len() {
                    seq![(k, pos, end)] + leftmost_first_from(pats, hay, end, end)
                } else if end == pos && pos != last_end {
                    seq![(k, pos, end)] + leftmost_first_from(pats, hay, pos + 1, pos)
                } else {
                    leftmost_first_from(pats, hay, pos + 1, last_end)
                }
            },
            None => leftmost_first_from(pats, hay, pos + 1, last_end),
        }
    }
}

/// Leftmost-first, non-overlapping matches of `pats` in all of `hay`.
pub open spec fn leftmost_first(pats: Seq<Seq<u8>>, hay: Seq<u8>) -> Seq<(int, int, int)> {
    leftmost_first_from(pats, hay, 0, -1)
}

/// Whether `m` is an occurrence `(pattern, start, end)` of one of `pats` in `hay`.
pub open spec fn is_occurrence(pats: Seq<Seq<u8>>, hay: Seq<u8>, m: (int, int, int)) -> bool {
    &&& 0 <= m.0 < pats.len()
    &&& occurs_at(hay, pats[m.0], m.1)
    &&& m.2 == m.1 + pats[m.0].len()
}

/// The byte patterns of a tag list: the UTF-8 encodings of the names.
pub open spec fn tag_patterns(tags: Seq<TagView>) -> Seq<Seq<u8>> {
    tags.map_values(|t: TagView| encode_utf8(t.name))
}

pub open spec fn match_view(m: (usize, usize, usize)) -> (int, int, int) {
    (m.0 as int, m.1 as int, m.2 as int)
}

// ── Outside automaton and regex ───────────────────────────────────────────────

#[verifier::external_type_specification]
#[verifier::external_body]
pub struct ExAhoCorasick(AhoCorasick);

#[verifier::external_type_specification]
#[verifier::external_body]
pub struct ExRegex(Regex);

/// The byte patterns an automaton was built from, in order.
pub uninterp spec fn ac_patterns(ac: AhoCorasick) -> Seq<Seq<u8>>;

/// Whether an automaton was built as [`ac_build_leftmost_first`] builds it:
/// leftmost-first match semantics, every other option at its default.
pub uninterp spec fn ac_leftmost_first(ac: AhoCorasick) -> bool;

/// Whether an automaton with leftmost-first semantics and otherwise default
/// options builds from these byte patterns.
pub uninterp spec fn ac_builds(patterns: Seq<Seq<u8>>) -> bool;

/// Whether `Regex::new` compiles `pattern`.
pub uninterp spec fn regex_compiles(pattern: Seq<char>) -> bool;

/// Whether a regex was compiled with default options, as `Regex::new`
/// compiles it.
pub uninterp spec fn regex_default(re: Regex) -> bool;

/// The source text a regex was compiled from.
pub uninterp spec fn regex_pattern(re: Regex) -> Seq<char>;

/// What `Regex::captures` finds in `haystack` for the regex compiled from
/// `pattern`: `None` when there is no match, else the text of capture
/// groups 1 and 2 (each `None` when the group did not take part).
pub uninterp spec fn captured_groups(pattern: Seq<char>, haystack: Seq<char>) -> Option<
    (Option<Seq<char>>, Option<Seq<char>>),
>;

/// Calls `AhoCorasick::builder().match_kind(MatchKind::LeftmostFirst).build`
/// on the UTF-8 bytes of `patterns`: it succeeds exactly when the named
/// [`ac_builds`] holds of them, and then the automaton holds those patterns
/// in that order with leftmost-first semantics; on failure the builder's
/// error is returned as its message.
#[verifier::external_body]
fn ac_build_leftmost_first(patterns: &Vec<String>) -> (r: Result<AhoCorasick, String>)
    ensures
        r is Ok <==> ac_builds(patterns@.map_values(|p: String| encode_utf8(p@))),
        r matches Ok(ac) ==> ac_patterns(ac) == patterns@.map_values(|p: String| encode_utf8(p@))
            && ac_leftmost_first(ac),
{
    match AhoCorasick::builder().match_kind(aho_corasick::MatchKind::LeftmostFirst).build(
        patterns,
    ) {
        Ok(ac) => Ok(ac),
        Err(e) => Err(e.to_string()),
    }
}

/// Calls `AhoCorasick::find_iter` on `haystack` and collects each match as
/// `(pattern index, start, end)`.  For an automaton built by
/// [`ac_build_leftmost_first`]: every match is an occurrence of its
/// pattern, the matches do not overlap and come in order, and they are
/// exactly the leftmost-first matches that its documentation describes, an
/// empty match being passed over where it would touch the end of the match
/// before it (`FindIter::handle_overlapping_empty_match`).  For other automata nothing is stated.
#[verifier::external_body]
fn ac_find_all(ac: &AhoCorasick, haystack: &str) -> (r: Vec<(usize, usize, usize)>)
    ensures
        ac_leftmost_first(*ac) ==> forall|i: int|
            0 <= i < r@.len() ==> is_occurrence(
                ac_patterns(*ac),
                haystack.spec_bytes(),
                #[trigger] match_view(r@[i]),
            ),
        ac_leftmost_first(*ac) ==> forall|i: int| 0 <= i < r@.len() - 1 ==> #[trigger] r@[i].2 <= r@[i + 1].1,
        ac_leftmost_first(*ac) ==> r@.map_values(|m: (usize, usize, usize)| match_view(m))
            == leftmost_first(ac_patterns(*ac), haystack.spec_bytes()),
{
    ac.find_iter(haystack).map(|m| (m.pattern().as_usize(), m.start(), m.end())).collect()
}

/// Calls `Regex::new`: it succeeds exactly when the named
/// [`regex_compiles`] holds of `pattern`, and then the regex remembers
/// `pattern` as its source (`Regex::as_str`) and has default options; on
/// failure the error's message is returned.
#[verifier::external_body]
fn regex_new(pattern: &str) -> (r: Result<Regex, String>)
    ensures
        r is Ok <==> regex_compiles(pattern@),
        r matches Ok(re) ==> regex_pattern(re) == pattern@ && regex_default(re),
{
    match Regex::new(pattern) {
        Ok(re) => Ok(re),
        Err(e) => Err(e.to_string()),
    }
}

/// The view of the groups that `regex_groups` hands back.
pub open spec fn groups_view(g: Option<(Option<String>, Option<String>)>) -> Option<
    (Option<Seq<char>>, Option<Seq<char>>),
> {
    match g {
        Some((a, b)) => Some((opt_view(a), opt_view(b))),
        None => None,
    }
}

/// Calls `Regex::captures` on `haystack` and copies out capture groups 1
/// and 2: for a regex with default options the result is the named
/// [`captured_groups`] of the regex's source and the haystack.  For other
/// regexes nothing is stated.
#[verifier::external_body]
fn regex_groups(re: &Regex, haystack: &str) -> (r: Option<(Option<String>, Option<String>)>)
    ensures
        regex_default(*re) ==> groups_view(r) == captured_groups(regex_pattern(*re), haystack@),
{
    match re.captures(haystack) {
        Some(caps) => Some(
            (caps.get(1).map(|m| m.as_str().to_string()), caps.get(2).map(|m| m.as_str().to_string())),
        ),
        None => None,
    }
}

/// Whether a byte is an ASCII letter or `_`.
fn is_word_byte_exec(b: u8) -> (r: bool)
    ensures
        r == is_word_byte(b),
{
    (0x41 <= b && b <= 0x5a) || (0x61 <= b && b <= 0x7a) || b == 0x5f
}

/// A match of a tag's pattern in a line starts at a character boundary:
/// a non-empty pattern begins with a leading byte, and in an ASCII line every
/// byte is one.
proof fn lemma_match_start_is_boundary(line: &str, pats: Seq<Seq<u8>>, k: int, start: int)
    requires
        0 <= k < pats.len(),
        occurs_at(line.spec_bytes(), pats[k], start),
        (pats[k].len() > 0 && exists|name: Seq<char>| pats[k] == encode_utf8(name)) || (is_ascii(
            line,
        )),
    ensures
        is_char_boundary(line.spec_bytes(), start),
{
    let hay = line.spec_bytes();
    broadcast use is_ascii_spec_bytes;

    if start == hay.len() {
        is_char_boundary_start_end_of_seq(hay);
    } else if pats[k].len() > 0 && exists|name: Seq<char>| pats[k] == encode_utf8(name) {
        let name = choose|name: Seq<char>| pats[k] == encode_utf8(name);
        is_char_boundary_iff_not_is_continuation_byte(pats[k], 0);
        assert(hay[start] == hay.subrange(start, start + pats[k].len())[0]);
        is_char_boundary_iff_not_is_continuation_byte(hay, start);
    } else {
        assert(hay[start] == line@[start] as u8);
        assert((line@[start] as u8) < 0x80) by {
            assert(is_ascii_chars(line@));
        }
        is_char_boundary_iff_not_is_continuation_byte(hay, start);
    }
}

// ── Matcher ───────────────────────────────────────────────────────────────────

/// The pattern that extracts `(author, message)` from the text that starts
/// at a tag: `TAG\s*(?:\(([^)]*)\))?\s*:?\s*(.*)`.
pub const DETAIL_PATTERN: &'static str = r"(?:[A-Z_]+)\s*(?:\(([^)]*)\))?\s*:?\s*(.*)";

/// `(author, message)` made from the capture groups of the detail pattern:
/// the author is group 1 trimmed, dropped when empty; the message is group
/// 2 trimmed, or empty.  Without a match both are absent.
pub open spec fn detail_of(groups: Option<(Option<Seq<char>>, Option<Seq<char>>)>) -> (
    Option<Seq<char>>,
    Seq<char>,
) {
    match groups {
        None => (None, seq![]),
        Some((a, m)) => (
            match a {
                Some(s) => if trim(s).len() > 0 {
                    Some(trim(s))
                } else {
                    None
                },
                None => None,
            },
            match m {
                Some(s) => trim(s),
                None => seq![],
            },
        ),
    }
}

/// The `(author, message)` found in the text `slice` that starts at a tag.
pub open spec fn detail_at(slice: Seq<char>) -> (Option<Seq<char>>, Seq<char>) {
    detail_of(captured_groups(DETAIL_PATTERN@, slice))
}

/// Whether a byte counts as part of a word next to a tag: an ASCII letter or `_`.
pub open spec fn is_word_byte(b: u8) -> bool {
    (0x41 <= b && b <= 0x5a) || (0x61 <= b && b <= 0x7a) || b == 0x5f
}

/// Whether the match `start..end` in `line` stands alone as a word: the
/// bytes right before and right after it are not word bytes.
pub open spec fn stands_alone(line: Seq<u8>, start: int, end: int) -> bool {
    &&& !(end < line.len() && is_word_byte(line[end]))
    &&& !(start > 0 && is_word_byte(line[start - 1]))
}

/// The finding for the match `m` of tag `tags[m.0]` in `line`.
pub open spec fn finding_at(
    tags: Seq<TagView>,
    line: Seq<u8>,
    file: Seq<char>,
    line_number: int,
    m: (int, int, int),
) -> FindingView {
    let detail = detail_at(decode_utf8(line.subrange(m.1, line.len() as int)));
    FindingView {
        file,
        line: line_number,
        column: m.1 + 1,
        tag: tags[m.0].name,
        severity: tags[m.0].severity,
        author: detail.0,
        message: detail.1,
        blame_author: None,
        blame_date: None,
        blame_commit: None,
    }
}

/// The findings made from the matches `ms`, in order, keeping those that
/// stand alone as a word.
pub open spec fn findings_of(
    tags: Seq<TagView>,
    line: Seq<u8>,
    file: Seq<char>,
    line_number: int,
    ms: Seq<(int, int, int)>,
) -> Seq<FindingView>
    decreases ms.len(),
{
    if ms.len() == 0 {
        seq![]
    } else {
        let prev = findings_of(tags, line, file, line_number, ms.drop_last());
        let m = ms.last();
        if stands_alone(line, m.1, m.2) {
            prev.push(finding_at(tags, line, file, line_number, m))
        } else {
            prev
        }
    }
}

/// All findings on one line (given as its UTF-8 bytes) for a tag list.
pub open spec fn line_findings(
    tags: Seq<TagView>,
    line: Seq<u8>,
    file: Seq<char>,
    line_number: int,
) -> Seq<FindingView> {
    findings_of(tags, line, file, line_number, leftmost_first(tag_patterns(tags), line))
}

/// Whether `f` is a finding that some stand-alone occurrence of a tag in
/// `line` yields.
pub open spec fn is_line_finding(
    tags: Seq<TagView>,
    line: Seq<u8>,
    file: Seq<char>,
    line_number: int,
    f: FindingView,
) -> bool {
    exists|m: (int, int, int)|
        #![trigger finding_at(tags, line, file, line_number, m)]
        is_occurrence(tag_patterns(tags), line, m) && stands_alone(line, m.1, m.2) && f
            == finding_at(tags, line, file, line_number, m)
}

/// Pre-compiled multi-pattern scanner.
///
/// Build once with [`Matcher::new`], then call [`Matcher::scan_line`] for each
/// line of a file.  The inner automaton scans all tag keywords
/// simultaneously in a single pass.
pub struct Matcher {
    ac: AhoCorasick,
    tags: Vec<Tag>,
    detail_re: Regex,
}

impl Matcher {
    #[verifier::type_invariant]
    spec fn inv(self) -> bool {
        &&& ac_patterns(self.ac) == tag_patterns(tag_views(self.tags@))
        &&& ac_leftmost_first(self.ac)
        &&& regex_pattern(self.detail_re) == DETAIL_PATTERN@
        &&& regex_default(self.detail_re)
    }

    /// The tags this matcher looks for, in priority order.
    pub closed spec fn tags_view(&self) -> Seq<TagView> {
        tag_views(self.tags@)
    }

    /// Whether every tag name is non-empty.
    pub open spec fn names_nonempty(&self) -> bool {
        forall|k: int| 0 <= k < self.tags_view().len() ==> #[trigger] self.tags_view()[k].name.len() > 0
    }

    /// Build a new `Matcher` from a slice of tags.
    ///
    /// # Errors
    /// Returns an error if the automaton or the detail regex cannot be
    /// compiled (should not happen with well-formed tag names).
    pub fn new(tags: &[Tag]) -> (r: Result<Matcher, TodorkError>)
        ensures
            r is Ok <==> ac_builds(tag_patterns(tag_views(tags@))) && regex_compiles(DETAIL_PATTERN@),
            r matches Ok(m) ==> m.tags_view() == tag_views(tags@),
            r matches Err(e) ==> e is Pattern,
    {
        let mut names: Vec<String> = Vec::new();
        let mut copy: Vec<Tag> = Vec::new();
        let mut i: usize = 0;
        while i < tags.len()
            invariant
                0 <= i <= tags@.len(),
                names@.len() == i,
                copy@.len() == i,
                forall|j: int| 0 <= j < i ==> #[trigger] names@[j] == tags@[j].name,
                forall|j: int| 0 <= j < i ==> #[trigger] copy@[j]@ == tags@[j]@,
            decreases tags@.len() - i,
        {
            names.push(tags[i].name.clone());
            copy.push(copy_tag(&tags[i]));
            i += 1;
        }
        assert(tag_views(copy@) =~= tag_views(tags@));
        assert(names@.map_values(|p: String| encode_utf8(p@)) =~= tag_patterns(tag_views(tags@)));
        let ac = match ac_build_leftmost_first(&names) {
            Ok(ac) => ac,
            Err(e) => return Err(TodorkError::Pattern(e)),
        };
        let detail_re = match regex_new(DETAIL_PATTERN) {
            Ok(re) => re,
            Err(e) => return Err(TodorkError::Pattern(e)),
        };
        assert(tag_views(copy@) =~= tag_views(tags@));
        assert(names@.map_values(|p: String| encode_utf8(p@)) =~= tag_patterns(tag_views(copy@)));
        Ok(Matcher { ac, tags: copy, detail_re })
    }

    /// `(author, message)` from capture groups 1 and 2 of the detail
    /// pattern: the author trimmed and dropped when empty, the message
    /// trimmed or empty; both absent when the pattern did not match.
    pub fn detail_from_groups(groups: Option<(Option<String>, Option<String>)>) -> (r: (
        Option<String>,
        String,
    ))
        ensures
            (opt_view(r.0), r.1@) == detail_of(groups_view(groups)),
    {
        match groups {
            None => (None, String::new()),
            Some((a, m)) => {
                let author = match a {
                    Some(s) => {
                        let t = str_trim(s.as_str());
                        if t.is_empty() {
                            None
                        } else {
                            Some(owned(t))
                        }
                    },
                    None => None,
                };
                let message = match m {
                    Some(s) => owned(str_trim(s.as_str())),
                    None => String::new(),
                };
                (author, message)
            },
        }
    }

    /// Scan a single `line` (**without** the trailing newline) and return all
    /// findings it contains, in order of their column.
    ///
    /// `file` and `line_number` are used only to populate the returned
    /// [`Finding`]s.
    pub fn scan_line(&self, line: &str, file: &str, line_number: usize) -> (r: Vec<Finding>)
        requires
            self.names_nonempty() || (line.is_ascii() && line@.len() < usize::MAX),
        ensures
            finding_views(r@) == line_findings(
                self.tags_view(),
                line.spec_bytes(),
                file@,
                line_number as int,
            ),
            forall|i: int|
                0 <= i < r@.len() ==> is_line_finding(
                    self.tags_view(),
                    line.spec_bytes(),
                    file@,
                    line_number as int,
                    #[trigger] r@[i]@,
                ),
    {
        proof {
            use_type_invariant(self);
        }
        let matches = ac_find_all(&self.ac, line);
        let bytes = line.as_bytes();
        let ghost hay = line.spec_bytes();
        let ghost ms = matches@.map_values(|m: (usize, usize, usize)| match_view(m));
        let ghost tags = self.tags_view();
        let ghost pats = tag_patterns(tags);
        assert(ms == leftmost_first(pats, hay));
        let mut findings: Vec<Finding> = Vec::new();
        let mut i: usize = 0;
        while i < matches.len()
            invariant
                0 <= i <= matches@.len(),
                ms == matches@.map_values(|m: (usize, usize, usize)| match_view(m)),
                bytes@ == hay,
                hay == line.spec_bytes(),
                tags == self.tags_view(),
                pats == tag_patterns(tags),
                self.names_nonempty() || (line.is_ascii() && line@.len() < usize::MAX),
                forall|j: int|
                    0 <= j < matches@.len() ==> is_occurrence(
                        ac_patterns(self.ac),
                        line.spec_bytes(),
                        #[trigger] match_view(matches@[j]),
                    ),
                finding_views(findings@) == findings_of(
                    tags,
                    hay,
                    file@,
                    line_number as int,
                    ms.take(i as int),
                ),
                forall|j: int|
                    0 <= j < findings@.len() ==> is_line_finding(
                        tags,
                        hay,
                        file@,
                        line_number as int,
                        #[trigger] findings@[j]@,
                    ),
            decreases matches@.len() - i,
        {
            proof {
                use_type_invariant(self);
            }
            let m = matches[i];
            let k = m.0;
            let start = m.1;
            let end = m.2;
            let ghost mv = match_view(m);
            assert(mv == ms[i as int]);
            assert(is_occurrence(pats, hay, mv));
            let mut alone = true;
            if end < bytes.len() && is_word_byte_exec(bytes[end]) {
                alone = false;
            }
            if start > 0 && is_word_byte_exec(bytes[start - 1]) {
                alone = false;
            }
            assert(alone == stands_alone(hay, mv.1, mv.2));
            let ghost before = findings@;
            if alone {
                proof {
                    lemma_match_start_is_boundary(line, pats, k as int, start as int);
                }
                let (_, slice) = line.split_at(start);
                proof {
                    assert(slice.spec_bytes() == encode_utf8(slice@));
                    assert(slice@ == decode_utf8(hay.subrange(start as int, hay.len() as int)));
                }
                let (author, message) = self.extract_detail(slice);
                let tag = &self.tags[k];
                let f = Finding {
                    file: owned(file),
                    line: line_number,
                    column: start + 1,
                    tag: tag.name.clone(),
                    severity: tag.severity,
                    author,
                    message,
                    blame_author: None,
                    blame_date: None,
                    blame_commit: None,
                };
                assert(f@ == finding_at(tags, hay, file@, line_number as int, mv));
                findings.push(f);
                assert(finding_views(findings@) =~= finding_views(before).push(f@));
            }
            proof {
                assert(ms.take(i + 1).drop_last() =~= ms.take(i as int));
            }
            i += 1;
        }
        proof {
            assert(ms.take(ms.len() as int) =~= ms);
        }
        findings
    }

    /// Whether every tag name is non-empty.
    pub fn names_nonempty_exec(&self) -> (r: bool)
        ensures
            r == self.names_nonempty(),
    {
        let mut i: usize = 0;
        while i < self.tags.len()
            invariant
                0 <= i <= self.tags@.len(),
                forall|k: int| 0 <= k < i ==> #[trigger] self.tags_view()[k].name.len() > 0,
            decreases self.tags@.len() - i,
        {
            if self.tags[i].name.as_str().is_empty() {
                assert(self.tags_view()[i as int].name.len() == 0);
                return false;
            }
            i += 1;
        }
        true
    }

    /// Extract `(author, message)` from a slice that starts at the tag keyword.
    fn extract_detail(&self, slice: &str) -> (r: (Option<String>, String))
        ensures
            (opt_view(r.0), r.1@) == detail_at(slice@),
    {
        proof {
            use_type_invariant(self);
        }
        let groups = regex_groups(&self.detail_re, slice);
        Self::detail_from_groups(groups)
    }
}

} // verus!
