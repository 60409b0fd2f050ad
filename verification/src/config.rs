//! The resolved, validated configuration of a scan, built from the command
//! line.

use vstd::prelude::*;

use globset::{Glob, GlobSet};

use crate::cli::{strings_view, Args, ArgsView, ColorWhen, Format, SortOrder};
use crate::error::TodorkError;
use crate::matcher::{copy_tag, default_tag_views, default_tags, tag_views, Severity, Tag, TagView};
use crate::scanner::DEFAULT_MAX_FILE_SIZE;
use crate::text::{chars_of, owned, push_str, str_eq};

verus! {

// ── Tags ──────────────────────────────────────────────────────────────────────

/// What `str::to_uppercase` makes of `s` (Unicode upper-case mapping).
pub uninterp spec fn uppercase(s: Seq<char>) -> Seq<char>;

/// Calls `str::to_uppercase`: the named [`uppercase`] of `s`, which is
/// empty exactly when `s` is (each character maps to one or more, as
/// `char::to_uppercase` documents).
#[verifier::external_body]
fn to_uppercase(s: &str) -> (r: String)
    ensures
        r@ == uppercase(s@),
        (r@.len() == 0) == (s@.len() == 0),
{
    s.to_uppercase()
}

/// Whether `c` is an ASCII letter or `_`.
pub open spec fn is_tag_char(c: char) -> bool {
    ('A' <= c && c <= 'Z') || ('a' <= c && c <= 'z') || c == '_'
}

/// Whether `s` can name a tag: non-empty, made of ASCII letters and `_`.
pub open spec fn is_tag_name(s: Seq<char>) -> bool {
    s.len() > 0 && forall|i: int| 0 <= i < s.len() ==> #[trigger] is_tag_char(s[i])
}

/// The first tag of `tags` from index `k` on that is named `name`.
pub open spec fn find_tag(tags: Seq<TagView>, name: Seq<char>, k: int) -> Option<TagView>
    decreases tags.len() - k,
{
    if k < 0 || k >= tags.len() {
        None
    } else if tags[k].name == name {
        Some(tags[k])
    } else {
        find_tag(tags, name, k + 1)
    }
}

/// The tag a name given on the command line stands for: its upper-case
/// form, with the severity of the default tag of that name, or `Warning`
/// for a custom tag.  `None` when the upper-case form cannot name a tag.
pub open spec fn resolve_tag(name: Seq<char>) -> Option<TagView> {
    let upper = uppercase(name);
    if is_tag_name(upper) {
        match find_tag(default_tag_views(), upper, 0) {
            Some(t) => Some(t),
            None => Some(TagView { name: upper, severity: Severity::Warning }),
        }
    } else {
        None
    }
}

/// The tags that `names` stand for, or the first name that cannot name one.
pub open spec fn resolve_tag_names(names: Seq<Seq<char>>) -> Result<Seq<TagView>, Seq<char>>
    decreases names.len(),
{
    if names.len() == 0 {
        Ok(seq![])
    } else {
        match resolve_tag_names(names.drop_last()) {
            Err(e) => Err(e),
            Ok(ts) => match resolve_tag(names.last()) {
                Some(t) => Ok(ts.push(t)),
                None => Err(names.last()),
            },
        }
    }
}

proof fn lemma_find_tag_at(tags: Seq<TagView>, name: Seq<char>, j: int, k: int)
    requires
        0 <= j <= k < tags.len(),
        tags[k].name == name,
        forall|i: int| j <= i < k ==> #[trigger] tags[i].name != name,
    ensures
        find_tag(tags, name, j) == Some(tags[k]),
    decreases k - j,
{
    if j < k {
        lemma_find_tag_at(tags, name, j + 1, k);
    }
}

proof fn lemma_find_tag_none(tags: Seq<TagView>, name: Seq<char>, j: int)
    requires
        0 <= j,
        forall|i: int| j <= i < tags.len() ==> #[trigger] tags[i].name != name,
    ensures
        find_tag(tags, name, j) is None,
    decreases tags.len() - j,
{
    if j < tags.len() {
        lemma_find_tag_none(tags, name, j + 1);
    }
}

/// The default tags have names that can name a tag, no two alike.
proof fn lemma_default_names()
    ensures
        forall|k: int| 0 <= k < default_tag_views().len() ==> is_tag_name(#[trigger] default_tag_views()[k].name),
        forall|i: int, k: int|
            0 <= i < k < default_tag_views().len() ==> #[trigger] default_tag_views()[i].name
                != #[trigger] default_tag_views()[k].name,
{
    reveal_strlit("FIXME");
    reveal_strlit("BUG");
    reveal_strlit("XXX");
    reveal_strlit("TODO");
    reveal_strlit("HACK");
    reveal_strlit("DEPRECATED");
    reveal_strlit("NOTE");
    reveal_strlit("OPTIMIZE");
    let d = default_tag_views();
    assert forall|k: int| 0 <= k < d.len() implies is_tag_name(#[trigger] d[k].name) by {
        let n = d[k].name;
        assert forall|i: int| 0 <= i < n.len() implies #[trigger] is_tag_char(n[i]) by {
            if k == 5 {
                assert(0 <= i < 10);
            }
        }
    }
    assert forall|i: int, k: int| 0 <= i < k < d.len() implies #[trigger] d[i].name != #[trigger] d[k].name by {
        assert(d[i].name.len() != d[k].name.len() || d[i].name[0] != d[k].name[0]);
    }
}

/// A name whose upper-case form is the name of a default tag stands for
/// that default tag, its severity kept (`optimize` is `OPTIMIZE`, `Info`).
pub proof fn default_tags_keep_their_severity(n: Seq<char>, k: int)
    requires
        0 <= k < default_tag_views().len(),
        uppercase(n) == default_tag_views()[k].name,
    ensures
        resolve_tag(n) == Some(default_tag_views()[k]),
{
    lemma_default_names();
    let d = default_tag_views();
    assert forall|i: int| 0 <= i < k implies #[trigger] d[i].name != uppercase(n) by {
        assert(d[i].name != d[k].name);
    }
    lemma_find_tag_at(d, uppercase(n), 0, k);
}

/// Any other name that upper-cases to ASCII letters and `_` stands for a
/// custom tag of that upper-case name with severity `Warning`; a name that
/// does not is refused.
pub proof fn custom_tags_are_warnings(n: Seq<char>)
    ensures
        is_tag_name(uppercase(n)) && (forall|k: int| 0 <= k < default_tag_views().len() ==> #[trigger] default_tag_views()[k].name != uppercase(n))
            ==> resolve_tag(n) == Some(TagView { name: uppercase(n), severity: Severity::Warning }),
        !is_tag_name(uppercase(n)) ==> resolve_tag(n) is None,
{
    if forall|k: int| 0 <= k < default_tag_views().len() ==> #[trigger] default_tag_views()[k].name != uppercase(n) {
        lemma_find_tag_none(default_tag_views(), uppercase(n), 0);
    }
}

/// Tag names are case-insensitive: two names with the same upper-case form
/// stand for the same tag, or are refused alike.
pub proof fn tags_ignore_case(a: Seq<char>, b: Seq<char>)
    requires
        uppercase(a) == uppercase(b),
    ensures
        resolve_tag(a) == resolve_tag(b),
{
}

fn is_tag_name_exec(s: &str) -> (r: bool)
    ensures
        r == is_tag_name(s@),
{
    let cs = chars_of(s);
    if cs.len() == 0 {
        return false;
    }
    let mut i: usize = 0;
    while i < cs.len()
        invariant
            0 <= i <= cs@.len(),
            cs@ == s@,
            forall|j: int| 0 <= j < i ==> #[trigger] is_tag_char(cs@[j]),
        decreases cs@.len() - i,
    {
        let c = cs[i];
        if !(('A' <= c && c <= 'Z') || ('a' <= c && c <= 'z') || c == '_') {
            assert(!is_tag_char(cs@[i as int]));
            return false;
        }
        i += 1;
    }
    true
}

fn resolve_one(name: &str) -> (r: Option<Tag>)
    ensures
        match resolve_tag(name@) {
            Some(t) => r matches Some(x) && x@ == t,
            None => r is None,
        },
        r is Some ==> name@.len() > 0,
{
    let upper = to_uppercase(name);
    if !is_tag_name_exec(upper.as_str()) {
        return None;
    }
    let defaults = default_tags();
    let ghost dv = tag_views(defaults@);
    let mut k: usize = 0;
    while k < defaults.len()
        invariant
            0 <= k <= defaults@.len(),
            dv == tag_views(defaults@),
            dv == default_tag_views(),
            upper@ == uppercase(name@),
            is_tag_name(upper@),
            name@.len() > 0,
            find_tag(dv, upper@, k as int) == find_tag(dv, upper@, 0),
        decreases defaults@.len() - k,
    {
        assert(dv[k as int] == defaults@[k as int]@);
        if str_eq(defaults[k].name.as_str(), upper.as_str()) {
            assert(find_tag(dv, upper@, k as int) == Some(dv[k as int]));
            let t = copy_tag(&defaults[k]);
            assert(is_tag_name(uppercase(name@)));
            assert(find_tag(default_tag_views(), uppercase(name@), 0) == Some(t@));
            assert(resolve_tag(name@) == Some(t@));
            return Some(t);
        }
        k += 1;
    }
    assert(find_tag(dv, upper@, k as int) is None);
    Some(Tag { name: upper, severity: Severity::Warning })
}

/// Resolve a list of tag name strings (case-insensitive) against the
/// default tags.
///
/// Unknown tag names are allowed as custom tags with Warning severity —
/// this lets users scan for project-specific annotations like SAFETY or PERF.
pub fn resolve_tags(names: &[String]) -> (r: Result<Vec<Tag>, TodorkError>)
    ensures
        match resolve_tag_names(strings_view(names@)) {
            Ok(ts) => r matches Ok(v) && tag_views(v@) == ts,
            Err(n) => r matches Err(TodorkError::InvalidTag(s)) && s@ == n,
        },
        (exists|i: int| 0 <= i < names@.len() && (#[trigger] names@[i])@.len() == 0) ==> r is Err,
{
    let ghost ns = strings_view(names@);
    let mut resolved: Vec<Tag> = Vec::new();
    let mut i: usize = 0;
    assert(ns.take(0) =~= Seq::<Seq<char>>::empty());
    assert(tag_views(resolved@) =~= Seq::<TagView>::empty());
    while i < names.len()
        invariant
            0 <= i <= names@.len(),
            ns == strings_view(names@),
            resolve_tag_names(ns.take(i as int)) == Ok::<Seq<TagView>, Seq<char>>(tag_views(resolved@)),
            forall|j: int| 0 <= j < i ==> (#[trigger] names@[j])@.len() > 0,
        decreases names@.len() - i,
    {
        assert(ns.take(i + 1).drop_last() =~= ns.take(i as int));
        assert(ns.take(i + 1).last() == names@[i as int]@);
        match resolve_one(names[i].as_str()) {
            Some(t) => {
                let ghost before = tag_views(resolved@);
                resolved.push(t);
                assert(tag_views(resolved@) =~= before.push(t@));
            },
            None => {
                proof {
                    assert(resolve_tag_names(ns.take(i + 1)) is Err);
                    lemma_first_error_stays(ns, i + 1);
                }
                return Err(TodorkError::InvalidTag(names[i].clone()));
            },
        }
        i += 1;
    }
    assert(ns.take(names@.len() as int) =~= ns);
    Ok(resolved)
}

/// Once a prefix of the names is refused, the whole list is refused with
/// the same name.
proof fn lemma_first_error_stays(ns: Seq<Seq<char>>, k: int)
    requires
        0 <= k <= ns.len(),
        resolve_tag_names(ns.take(k)) is Err,
    ensures
        resolve_tag_names(ns) == resolve_tag_names(ns.take(k)),
    decreases ns.len() - k,
{
    if k == ns.len() {
        assert(ns.take(k) =~= ns);
    } else {
        assert(ns.take(k + 1).drop_last() =~= ns.take(k));
        lemma_first_error_stays(ns, k + 1);
    }
}

// ── Globs ─────────────────────────────────────────────────────────────────────

#[verifier::external_type_specification]
#[verifier::external_body]
pub struct ExGlob(Glob);

#[verifier::external_type_specification]
#[verifier::external_body]
pub struct ExGlobSet(GlobSet);

/// Whether `Glob::new` accepts `pattern`.
pub uninterp spec fn glob_parses(pattern: Seq<char>) -> bool;

/// The pattern a glob was built from (`Glob::glob`).
pub uninterp spec fn glob_source(g: Glob) -> Seq<char>;

/// Whether `GlobSet::new` builds a set from globs with these patterns.
pub uninterp spec fn glob_set_compiles(patterns: Seq<Seq<char>>) -> bool;

/// The patterns of the globs a set was built from, in order.
pub uninterp spec fn glob_set_patterns(s: GlobSet) -> Seq<Seq<char>>;

/// Whether the glob `pattern`, with default options, matches `path`.
pub uninterp spec fn glob_matches(pattern: Seq<char>, path: Seq<char>) -> bool;

/// Whether a glob was built with default options, as `Glob::new` builds it.
pub uninterp spec fn glob_default(g: Glob) -> bool;

/// Whether a set was built from globs with default options only.
pub uninterp spec fn glob_set_default(s: GlobSet) -> bool;

/// Calls `Glob::new`: succeeds exactly when the named [`glob_parses`] holds
/// of `pattern`, and then the glob remembers `pattern` and has default
/// options; on failure the error's message is returned.
#[verifier::external_body]
fn glob_new(pattern: &str) -> (r: Result<Glob, String>)
    ensures
        r is Ok <==> glob_parses(pattern@),
        r matches Ok(g) ==> glob_source(g) == pattern@ && glob_default(g),
{
    match Glob::new(pattern) {
        Ok(g) => Ok(g),
        Err(e) => Err(e.to_string()),
    }
}

/// The patterns of a sequence of globs.
pub open spec fn glob_sources(gs: Seq<Glob>) -> Seq<Seq<char>> {
    gs.map_values(|g: Glob| glob_source(g))
}

/// Whether every glob of `gs` has default options.
pub open spec fn all_default(gs: Seq<Glob>) -> bool {
    forall|i: int| 0 <= i < gs.len() ==> glob_default(#[trigger] gs[i])
}

/// Calls `GlobSet::new` on the globs.  When they all have default options:
/// it succeeds exactly when the named [`glob_set_compiles`] holds of their
/// patterns, and then the set holds them in order and has default options.
/// On failure the error's message is returned.  For globs with other
/// options nothing is stated.
#[verifier::external_body]
fn glob_set_new(globs: &Vec<Glob>) -> (r: Result<GlobSet, String>)
    ensures
        all_default(globs@) ==> (r is Ok <==> glob_set_compiles(glob_sources(globs@))),
        all_default(globs@) ==> (r matches Ok(s) ==> glob_set_patterns(s) == glob_sources(globs@)
            && glob_set_default(s)),
{
    match GlobSet::new(globs) {
        Ok(s) => Ok(s),
        Err(e) => Err(e.to_string()),
    }
}

/// Whether some glob of `patterns` matches `path`.
pub open spec fn any_glob_matches(patterns: Seq<Seq<char>>, path: Seq<char>) -> bool {
    exists|i: int| 0 <= i < patterns.len() && glob_matches(#[trigger] patterns[i], path)
}

/// Calls `GlobSet::is_match`: for a set of globs with default options,
/// whether any glob in the set matches `path`, as its documentation states.
/// For other sets nothing is stated.
#[verifier::external_body]
fn glob_set_is_match(s: &GlobSet, path: &str) -> (r: bool)
    ensures
        glob_set_default(*s) ==> r == (exists|i: int| 0 <= i < glob_set_patterns(*s).len() && glob_matches(#[trigger] glob_set_patterns(*s)[i], path@)),
{
    s.is_match(path)
}

/// `list` joined with `sep` between items.
pub open spec fn join(list: Seq<Seq<char>>, sep: Seq<char>) -> Seq<char>
    decreases list.len(),
{
    if list.len() == 0 {
        seq![]
    } else if list.len() == 1 {
        list[0]
    } else {
        join(list.drop_last(), sep) + sep + list.last()
    }
}

fn join_exec(list: &[String], sep: &str) -> (r: String)
    ensures
        r@ == join(strings_view(list@), sep@),
{
    let ghost l = strings_view(list@);
    let mut r = String::new();
    let mut i: usize = 0;
    while i < list.len()
        invariant
            0 <= i <= list@.len(),
            l == strings_view(list@),
            r@ == join(l.take(i as int), sep@),
        decreases list@.len() - i,
    {
        assert(l.take(i + 1).drop_last() =~= l.take(i as int));
        if i > 0 {
            push_str(&mut r, sep);
        }
        push_str(&mut r, list[i].as_str());
        proof {
            if i == 0 {
                assert(join(l.take(0), sep@) =~= Seq::<char>::empty());
                assert(r@ =~= join(l.take(1), sep@));
            }
        }
        i += 1;
    }
    assert(l.take(list@.len() as int) =~= l);
    r
}

/// The index of the first pattern that does not parse as a glob, from `k` on.
pub open spec fn first_bad_glob(patterns: Seq<Seq<char>>, k: int) -> Option<int>
    decreases patterns.len() - k,
{
    if k < 0 || k >= patterns.len() {
        None
    } else if !glob_parses(patterns[k]) {
        Some(k)
    } else {
        first_bad_glob(patterns, k + 1)
    }
}

/// How compiling `patterns` into a glob set turns out: `Ok(None)` when
/// there are none, `Ok(Some(patterns))` when they compile, else the
/// pattern to blame (the first that does not parse, or all of them
/// joined by `", "` when the set does not build).
pub open spec fn glob_set_outcome(patterns: Seq<Seq<char>>) -> Result<Option<Seq<Seq<char>>>, Seq<char>> {
    if patterns.len() == 0 {
        Ok(None)
    } else {
        match first_bad_glob(patterns, 0) {
            Some(k) => Err(patterns[k]),
            None => if glob_set_compiles(patterns) {
                Ok(Some(patterns))
            } else {
                Err(join(patterns, ", "@))
            },
        }
    }
}

/// Whether an optional glob set, when there is one, has default options.
pub open spec fn opt_default(s: Option<GlobSet>) -> bool {
    match s {
        Some(g) => glob_set_default(g),
        None => true,
    }
}

/// The patterns of an optional glob set.
pub open spec fn opt_patterns(s: Option<GlobSet>) -> Option<Seq<Seq<char>>> {
    match s {
        Some(g) => Some(glob_set_patterns(g)),
        None => None,
    }
}

/// Whether `r` is the outcome of compiling `patterns`: the set or the
/// invalid-glob error that [`glob_set_outcome`] describes.
pub open spec fn is_glob_set_result(patterns: Seq<Seq<char>>, r: Result<Option<GlobSet>, TodorkError>) -> bool {
    match glob_set_outcome(patterns) {
        Ok(o) => r matches Ok(s) && opt_patterns(s) == o && opt_default(s),
        Err(p) => r matches Err(TodorkError::InvalidGlob { pattern, reason }) && pattern@ == p,
    }
}

/// Compile a list of glob patterns into a [`GlobSet`].
/// Returns `None` if the list is empty.
pub fn build_glob_set(patterns: &[String]) -> (r: Result<Option<GlobSet>, TodorkError>)
    ensures
        is_glob_set_result(strings_view(patterns@), r),
{
    let ghost ps = strings_view(patterns@);
    if patterns.len() == 0 {
        return Ok(None);
    }
    let mut globs: Vec<Glob> = Vec::new();
    let mut i: usize = 0;
    while i < patterns.len()
        invariant
            0 <= i <= patterns@.len(),
            ps == strings_view(patterns@),
            ps.len() > 0,
            glob_sources(globs@) == ps.take(i as int),
            all_default(globs@),
            first_bad_glob(ps, i as int) == first_bad_glob(ps, 0),
        decreases patterns@.len() - i,
    {
        match glob_new(patterns[i].as_str()) {
            Ok(g) => {
                let ghost before = globs@;
                globs.push(g);
                assert(globs@ =~= before.push(g));
                assert(ps[i as int] == patterns@[i as int]@);
                assert(glob_source(g) == ps[i as int]);
                assert(glob_sources(before).len() == before.len());
                assert(ps.take(i as int).len() == i);
                assert(before.len() == i);
                assert(globs@.len() == i + 1);
                assert(glob_sources(globs@).len() == i + 1);
                assert forall|j: int| 0 <= j <= i implies glob_sources(globs@)[j] == ps.take(i + 1)[j] by {
                    if j < i {
                        assert(globs@[j] == before[j]);
                        assert(glob_sources(before)[j] == ps.take(i as int)[j]);
                    }
                }
                assert(glob_sources(globs@) =~= ps.take(i + 1));
                assert(glob_parses(ps[i as int]));
            },
            Err(reason) => {
                return Err(TodorkError::InvalidGlob { pattern: patterns[i].clone(), reason });
            },
        }
        i += 1;
    }
    assert(ps.take(patterns@.len() as int) =~= ps);
    match glob_set_new(&globs) {
        Ok(s) => Ok(Some(s)),
        Err(reason) => Err(TodorkError::InvalidGlob { pattern: join_exec(patterns, ", "), reason }),
    }
}

/// Whether a file is scanned under the globs of files to scan (`wanted`)
/// and to skip (`unwanted`): it is skipped when a glob to skip matches its
/// path or its name, and, when there are globs of files to scan, unless one
/// of them matches its path or its name.
pub open spec fn passes_globs(
    path: Seq<char>,
    name: Seq<char>,
    wanted: Option<Seq<Seq<char>>>,
    unwanted: Option<Seq<Seq<char>>>,
) -> bool {
    &&& match unwanted {
        Some(ex) => !any_glob_matches(ex, path) && !any_glob_matches(ex, name),
        None => true,
    }
    &&& match wanted {
        Some(inc) => any_glob_matches(inc, path) || any_glob_matches(inc, name),
        None => true,
    }
}

/// Whether the file at `path`, named `file_name`, is scanned under the
/// globs of files to scan (`wanted`) and to skip (`unwanted`).  Matching against the bare name too lets a
/// pattern like `*.rs` or `skip.rs` work without `**/`.
pub fn should_scan(
    path: &str,
    file_name: &str,
    wanted: &Option<GlobSet>,
    unwanted: &Option<GlobSet>,
) -> (r: bool)
    ensures
        opt_default(*wanted) && opt_default(*unwanted) ==> r == passes_globs(
            path@,
            file_name@,
            opt_patterns(*wanted),
            opt_patterns(*unwanted),
        ),
{
    if let Some(ex) = unwanted {
        if glob_set_is_match(ex, path) || glob_set_is_match(ex, file_name) {
            return false;
        }
    }
    if let Some(inc) = wanted {
        if !glob_set_is_match(inc, path) && !glob_set_is_match(inc, file_name) {
            return false;
        }
    }
    true
}

// ── Config ────────────────────────────────────────────────────────────────────

/// Calls `num_cpus::get`: the number of logical CPUs available to this
/// process, which its documentation says is always at least 1.  Which
/// number it is depends on the machine and is not stated.
#[verifier::external_body]
fn cpu_count() -> (r: usize)
    ensures
        r >= 1,
{
    num_cpus::get()
}

/// Resolved, validated configuration derived from CLI arguments.
#[derive(Debug, Clone)]
pub struct Config {
    /// Paths to scan.
    pub paths: Vec<String>,
    /// Output format.
    pub format: Format,
    /// Tags to search for (the defaults, or those given).
    pub tags: Vec<Tag>,
    /// Only scan files matching these globs (None = no filter).
    pub include_globs: Option<GlobSet>,
    /// Skip files matching these globs (None = no exclude filter).
    pub exclude: Option<GlobSet>,
    /// When false, ignore .gitignore / .ignore files.
    pub use_gitignore: bool,
    /// When true, scan hidden files/dirs.
    pub search_hidden: bool,
    /// Maximum directory depth (None = unlimited).
    pub max_depth: Option<usize>,
    /// Maximum file size in bytes before skipping.
    pub max_file_size: u64,
    /// Number of parallel threads.
    pub threads: usize,
    /// Colour output setting.
    pub color: ColorWhen,
    /// When true, always exit 0 even when annotations are found.
    pub exit_zero: bool,
    /// When true, enrich findings with git blame data.
    pub blame: bool,
    /// Sort order applied to findings before output.
    pub sort: SortOrder,
    /// Maximum number of findings to display.
    pub limit: Option<usize>,
}

/// The tags a scan looks for: the defaults when none are given.
pub open spec fn config_tags(a: ArgsView) -> Result<Seq<TagView>, Seq<char>> {
    if a.tags.len() == 0 {
        Ok(default_tag_views())
    } else {
        resolve_tag_names(a.tags)
    }
}

/// Whether blame data is wanted: asked for, or needed by the sort order.
pub open spec fn wants_blame(a: ArgsView) -> bool {
    a.blame || a.sort == SortOrder::Oldest || a.sort == SortOrder::Newest
}

/// Whether `c` holds, field for field, what the arguments `a` ask for
/// (the thread count aside, which comes from the machine when not given).
pub open spec fn config_follows(a: ArgsView, c: Config) -> bool {
    &&& strings_view(c.paths@) == a.paths
    &&& c.format == a.format
    &&& config_tags(a) == Ok::<Seq<TagView>, Seq<char>>(tag_views(c.tags@))
    &&& glob_set_outcome(a.include_globs) == Ok::<Option<Seq<Seq<char>>>, Seq<char>>(opt_patterns(c.include_globs))
    &&& glob_set_outcome(a.exclude) == Ok::<Option<Seq<Seq<char>>>, Seq<char>>(opt_patterns(c.exclude))
    &&& opt_default(c.include_globs) && opt_default(c.exclude)
    &&& c.use_gitignore == !a.no_gitignore
    &&& c.search_hidden == a.hidden
    &&& crate::cli::opt_nat(c.max_depth) == a.max_depth
    &&& c.max_file_size == match a.max_filesize {
        Some(n) => n,
        None => DEFAULT_MAX_FILE_SIZE as nat,
    }
    &&& (a.threads matches Some(n) ==> c.threads == n)
    &&& c.threads >= 1
    &&& c.color == a.color
    &&& c.exit_zero == a.exit_zero
    &&& c.blame == wants_blame(a)
    &&& c.sort == a.sort
    &&& crate::cli::opt_nat(c.limit) == a.limit
}

/// The message of the error for `--threads 0`.
pub open spec fn threads_message() -> Seq<char> {
    "--threads must be at least 1"@
}

impl Config {
    /// Build a validated `Config` from parsed CLI arguments.
    ///
    /// Refused, in this order: a tag that cannot name one, a glob of files to
    /// scan that does not compile, a glob of files to skip that does not compile, and
    /// `--threads 0`.
    pub fn from_args(args: Args) -> (r: Result<Config, TodorkError>)
        ensures
            match config_tags(args@) {
                Err(n) => r matches Err(TodorkError::InvalidTag(s)) && s@ == n,
                Ok(_) => match glob_set_outcome(args@.include_globs) {
                    Err(p) => r matches Err(TodorkError::InvalidGlob { pattern, reason }) && pattern@ == p,
                    Ok(_) => match glob_set_outcome(args@.exclude) {
                        Err(p) => r matches Err(TodorkError::InvalidGlob { pattern, reason })
                            && pattern@ == p,
                        Ok(_) => if args@.threads == Some(0nat) {
                            r matches Err(TodorkError::InvalidTag(s)) && s@ == threads_message()
                        } else {
                            r matches Ok(c) && config_follows(args@, c)
                        },
                    },
                },
            },
            r is Err <==> (config_tags(args@) is Err || glob_set_outcome(args@.include_globs) is Err
                || glob_set_outcome(args@.exclude) is Err || args@.threads == Some(0nat)),
    {
        let tags = if args.tags.len() == 0 {
            default_tags()
        } else {
            match resolve_tags(args.tags.as_slice()) {
                Ok(t) => t,
                Err(e) => return Err(e),
            }
        };
        let include_globs = match build_glob_set(args.include_globs.as_slice()) {
            Ok(s) => s,
            Err(e) => return Err(e),
        };
        let exclude = match build_glob_set(args.exclude.as_slice()) {
            Ok(s) => s,
            Err(e) => return Err(e),
        };
        let threads = match args.threads {
            Some(0) => return Err(TodorkError::InvalidTag(owned("--threads must be at least 1"))),
            Some(n) => n,
            None => cpu_count(),
        };
        let blame = args.blame || args.sort == SortOrder::Oldest || args.sort == SortOrder::Newest;
        let max_file_size = match args.max_filesize {
            Some(n) => n,
            None => DEFAULT_MAX_FILE_SIZE,
        };
        Ok(Config {
            paths: args.paths,
            format: args.format,
            tags,
            include_globs,
            exclude,
            use_gitignore: !args.no_gitignore,
            search_hidden: args.hidden,
            max_depth: args.max_depth,
            max_file_size,
            threads,
            color: args.color,
            exit_zero: args.exit_zero,
            blame,
            sort: args.sort,
            limit: args.limit,
        })
    }
}

} // verus!
