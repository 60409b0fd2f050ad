//! File-level scanning: the size limit, binary detection, line splitting and
//! per-line matching of a file's contents.

use vstd::prelude::*;
use vstd::slice::slice_subrange;
use vstd::string::*;
use vstd::utf8::*;

use crate::blame::{lossy, lossy_text};
use crate::matcher::{finding_views, line_findings, FindingView, Finding, Matcher, TagView};

verus! {

/// Maximum file size (in bytes) scanned by default — 10 MiB.
pub const DEFAULT_MAX_FILE_SIZE: u64 = 10 * 1024 * 1024;

/// Number of leading bytes probed for a null byte (binary detection).
pub const BINARY_PROBE_LEN: usize = 8192;

/// The index of the first `'\n'` in `b` at or after `i`, or `b.len()`.
pub open spec fn line_end(b: Seq<u8>, i: int) -> int
    decreases b.len() - i,
{
    if i >= b.len() {
        b.len() as int
    } else if b[i] == 10 {
        i
    } else {
        line_end(b, i + 1)
    }
}

/// `l` without one trailing `'\r'`.
pub open spec fn strip_cr(l: Seq<u8>) -> Seq<u8> {
    if l.len() > 0 && l.last() == 13 {
        l.drop_last()
    } else {
        l
    }
}

/// The lines that reading `b` line by line yields from byte `s` on, as raw
/// bytes: each `'\n'` ends a line and is dropped together with a `'\r'`
/// right before it; text after the last `'\n'` is a last line (kept as it
/// is) when it is not empty.
pub open spec fn lines_from(b: Seq<u8>, s: int) -> Seq<Seq<u8>>
    decreases b.len() - s,
{
    if s < 0 || s >= b.len() {
        seq![]
    } else {
        let e = line_end(b, s);
        if s <= e < b.len() {
            seq![strip_cr(b.subrange(s, e))] + lines_from(b, e + 1)
        } else {
            seq![b.subrange(s, b.len() as int)]
        }
    }
}

/// The lines of `b`, as raw bytes.
pub open spec fn raw_lines(b: Seq<u8>) -> Seq<Seq<u8>> {
    lines_from(b, 0)
}

/// Whether every tag name is non-empty.
pub open spec fn names_all_nonempty(tags: Seq<TagView>) -> bool {
    forall|k: int| 0 <= k < tags.len() ==> #[trigger] tags[k].name.len() > 0
}

/// Whether a line with text `t` is matched: always when no tag name is
/// empty; otherwise only when `t` is ASCII, since an empty tag matches
/// everywhere, also inside a character.
pub open spec fn line_scanned(tags: Seq<TagView>, t: Seq<char>) -> bool {
    names_all_nonempty(tags) || (is_ascii_chars(t) && t.len() < usize::MAX)
}

/// The findings on one raw line with 1-based number `n`, the line read as
/// text with invalid UTF-8 sequences replaced by U+FFFD.
pub open spec fn raw_line_findings(
    tags: Seq<TagView>,
    path: Seq<char>,
    line: Seq<u8>,
    n: int,
) -> Seq<FindingView> {
    if line_scanned(tags, lossy(line)) {
        line_findings(tags, encode_utf8(lossy(line)), path, n)
    } else {
        seq![]
    }
}

/// The findings on the lines `lines`, numbered from 1, in order.
pub open spec fn lines_findings(tags: Seq<TagView>, path: Seq<char>, lines: Seq<Seq<u8>>) -> Seq<
    FindingView,
>
    decreases lines.len(),
{
    if lines.len() == 0 {
        seq![]
    } else {
        lines_findings(tags, path, lines.drop_last()) + raw_line_findings(
            tags,
            path,
            lines.last(),
            lines.len() as int,
        )
    }
}

/// The bytes probed for binary detection.
pub open spec fn probe(b: Seq<u8>) -> Seq<u8> {
    if b.len() <= BINARY_PROBE_LEN {
        b
    } else {
        b.take(BINARY_PROBE_LEN as int)
    }
}

/// Whether `b` holds a null byte.
pub open spec fn has_null(b: Seq<u8>) -> bool {
    exists|i: int| 0 <= i < b.len() && b[i] == 0
}

/// The findings of a file with contents `contents` and size `size`: none
/// when the file is larger than `max_file_size` or a null byte occurs in
/// its first 8 KiB; else those of its lines, invalid UTF-8 sequences being
/// replaced by U+FFFD.
pub open spec fn file_findings(
    tags: Seq<TagView>,
    path: Seq<char>,
    contents: Seq<u8>,
    size: int,
    max_file_size: int,
) -> Seq<FindingView> {
    if size > max_file_size {
        seq![]
    } else if has_null(probe(contents)) {
        seq![]
    } else {
        lines_findings(tags, path, raw_lines(contents))
    }
}

/// Calls `memchr::memchr`: the index of the first occurrence of `needle`
/// in `haystack`, or `None` when there is none.
#[verifier::external_body]
fn first_index_of(needle: u8, haystack: &[u8]) -> (r: Option<usize>)
    ensures
        r matches Some(i) ==> i < haystack@.len() && haystack@[i as int] == needle && forall|
            j: int,
        |
            0 <= j < i ==> haystack@[j] != needle,
        r is None ==> forall|j: int| 0 <= j < haystack@.len() ==> haystack@[j] != needle,
{
    memchr::memchr(needle, haystack)
}

proof fn lemma_line_end_bounds(b: Seq<u8>, i: int)
    requires
        0 <= i <= b.len(),
    ensures
        i <= line_end(b, i) <= b.len(),
        line_end(b, i) < b.len() ==> b[line_end(b, i)] == 10,
    decreases b.len() - i,
{
    if i < b.len() && b[i] != 10 {
        lemma_line_end_bounds(b, i + 1);
    }
}

/// The number of line breaks (`'\n'`) in `b` from byte `s` on.
pub open spec fn line_breaks_from(b: Seq<u8>, s: int) -> nat
    decreases b.len() - s,
{
    if s < 0 || s >= b.len() {
        0
    } else {
        (if b[s] == 10 { 1nat } else { 0nat }) + line_breaks_from(b, s + 1)
    }
}

/// Whether `b` has text after its last line break.
pub open spec fn has_trailing_text(b: Seq<u8>) -> bool {
    b.len() > 0 && b.last() != 10
}

proof fn lemma_no_break_before_line_end(b: Seq<u8>, s: int)
    requires
        0 <= s <= b.len(),
    ensures
        forall|j: int| s <= j < line_end(b, s) ==> b[j] != 10,
        line_breaks_from(b, s) == line_breaks_from(b, line_end(b, s)),
    decreases b.len() - s,
{
    if s < b.len() && b[s] != 10 {
        lemma_no_break_before_line_end(b, s + 1);
    }
}

proof fn lemma_lines_from(b: Seq<u8>, s: int)
    requires
        0 <= s <= b.len(),
    ensures
        forall|i: int, j: int|
            0 <= i < lines_from(b, s).len() && 0 <= j < lines_from(b, s)[i].len() ==> #[trigger] lines_from(b, s)[i][j] != 10,
        lines_from(b, s).len() == line_breaks_from(b, s) + if s < b.len() && has_trailing_text(b) {
            1nat
        } else {
            0nat
        },
    decreases b.len() - s,
{
    if s < b.len() {
        let e = line_end(b, s);
        lemma_line_end_bounds(b, s);
        lemma_no_break_before_line_end(b, s);
        let first = b.subrange(s, e);
        assert forall|j: int| 0 <= j < first.len() implies first[j] != 10 by {
            assert(first[j] == b[s + j]);
        }
        if e < b.len() {
            lemma_lines_from(b, e + 1);
            let l = strip_cr(first);
            assert forall|j: int| 0 <= j < l.len() implies l[j] != 10 by {
                assert(l[j] == first[j]);
            }
            let rest = lines_from(b, e + 1);
            assert(lines_from(b, s) == seq![l] + rest);
            assert forall|i: int, j: int|
                0 <= i < lines_from(b, s).len() && 0 <= j < lines_from(b, s)[i].len() implies #[trigger] lines_from(
                b,
                s,
            )[i][j] != 10 by {
                if i > 0 {
                    assert(lines_from(b, s)[i] == rest[i - 1]);
                }
            }
            assert(line_breaks_from(b, e) == 1 + line_breaks_from(b, e + 1));
            if e + 1 == b.len() {
                assert(!has_trailing_text(b));
            }
        } else {
            assert(e == b.len());
            assert(lines_from(b, s) == seq![b.subrange(s, b.len() as int)]);
            assert(b[b.len() - 1] != 10);
        }
    }
}

/// Reading a file's contents line by line, as `str::lines` does: no line
/// holds a line break, and there is one line per line break, and one more
/// for text after the last line break.  So findings are numbered by the
/// line breaks before them.
pub proof fn lines_split_at_line_breaks(b: Seq<u8>)
    ensures
        forall|i: int, j: int|
            0 <= i < raw_lines(b).len() && 0 <= j < raw_lines(b)[i].len() ==> #[trigger] raw_lines(b)[i][j] != 10,
        raw_lines(b).len() == line_breaks_from(b, 0) + if has_trailing_text(b) {
            1nat
        } else {
            0nat
        },
{
    lemma_lines_from(b, 0);
}

/// Scan the contents of one file and return all [`Finding`]s it contains.
///
/// `size` is the file's size on disk.  No findings when the file is larger
/// than `max_file_size`, when a null byte occurs in its first 8 KiB
/// (binary), or when it is empty.  Invalid UTF-8 sequences are replaced
/// with U+FFFD so the scan continues.  Under a matcher with an empty tag
/// name only ASCII lines are matched.
pub fn scan_contents(
    path: &str,
    contents: &[u8],
    size: u64,
    matcher: &Matcher,
    max_file_size: u64,
) -> (r: Vec<Finding>)
    ensures
        size > max_file_size || has_null(probe(contents@)) ==> r@.len() == 0,
        finding_views(r@) == file_findings(
            matcher.tags_view(),
            path@,
            contents@,
            size as int,
            max_file_size as int,
        ),
{
    let mut findings: Vec<Finding> = Vec::new();
    if size > max_file_size {
        return findings;
    }
    let probe_len: usize = if contents.len() <= BINARY_PROBE_LEN {
        contents.len()
    } else {
        BINARY_PROBE_LEN
    };
    let probe_bytes = slice_subrange(contents, 0, probe_len);
    assert(probe_bytes@ =~= probe(contents@));
    if first_index_of(0, probe_bytes).is_some() {
        return findings;
    }
    let nonempty_names = matcher.names_nonempty_exec();
    let ghost b = contents@;
    let ghost tags = matcher.tags_view();
    let ghost mut done: Seq<Seq<u8>> = seq![];
    let len = contents.len();
    let mut s: usize = 0;
    let mut line_number: usize = 0;
    while s < len
        invariant
            len == b.len(),
            b == contents@,
            tags == matcher.tags_view(),
            nonempty_names == matcher.names_nonempty(),
            0 <= s <= len,
            line_number == done.len(),
            line_number <= s,
            done + lines_from(b, s as int) == lines_from(b, 0),
            finding_views(findings@) == lines_findings(tags, path@, done),
        decreases len - s,
    {
        let mut e: usize = s;
        while e < len && contents[e] != 10
            invariant
                s <= e <= len,
                len == b.len(),
                b == contents@,
                line_end(b, e as int) == line_end(b, s as int),
            decreases len - e,
        {
            e += 1;
        }
        proof {
            lemma_line_end_bounds(b, s as int);
        }
        assert(line_end(b, s as int) == e);
        let stop: usize = if e < len && e > s && contents[e - 1] == 13 {
            e - 1
        } else {
            e
        };
        let raw = slice_subrange(contents, s, stop);
        let ghost line = if e < len {
            strip_cr(b.subrange(s as int, e as int))
        } else {
            b.subrange(s as int, len as int)
        };
        assert(raw@ =~= line);
        assert(lines_from(b, s as int) == seq![line] + lines_from(b, e + 1));
        line_number += 1;
        let ghost before = findings@;
        let owned_text = lossy_text(raw);
        let text = owned_text.as_str();
        if nonempty_names || (text.is_ascii() && crate::text::chars_of(text).len() < usize::MAX) {
            let mut line_found = matcher.scan_line(text, path, line_number);
            let ghost found = line_found@;
            findings.append(&mut line_found);
            assert(finding_views(findings@) =~= finding_views(before) + finding_views(found));
            assert(finding_views(found) == raw_line_findings(tags, path@, line, line_number as int));
        } else {
            assert(finding_views(findings@) =~= finding_views(before) + Seq::<FindingView>::empty());
        }
        proof {
            let old_done = done;
            done = done.push(line);
            assert(done.drop_last() =~= old_done);
            assert(done + lines_from(b, e + 1) =~= old_done + (seq![line] + lines_from(b, e + 1)));
            assert(lines_findings(tags, path@, done) == lines_findings(tags, path@, old_done)
                + raw_line_findings(tags, path@, line, line_number as int));
            assert(finding_views(findings@) =~= lines_findings(tags, path@, done));
        }
        s = if e < len {
            e + 1
        } else {
            len
        };
    }
    assert(done =~= lines_from(b, 0));
    findings
}

} // verus!
