//! The command line: the arguments todork takes, and the grammar that turns
//! a list of words into them.

use vstd::prelude::*;
use vstd::string::*;

use crate::matcher::opt_view;
use crate::text::{chars_of, parse_usize, parse_usize_exec, str_eq, string_of};

verus! {

/// Output format selection.
#[derive(Debug, Clone, Copy, PartialEq, Eq, Structural)]
pub enum Format {
    /// Human-readable coloured text (default).
    Text,
    /// Fixed-width aligned table.
    Table,
    /// JSON array of finding objects.
    Json,
    /// GitHub Actions workflow commands (::warning / ::error / ::notice).
    GithubAnnotations,
}

/// Colour output control.
#[derive(Debug, Clone, Copy, PartialEq, Eq, Structural)]
pub enum ColorWhen {
    /// Emit colour codes only when stdout is a TTY and NO_COLOR is unset.
    Auto,
    /// Always emit colour codes.
    Always,
    /// Never emit colour codes.
    Never,
}

/// Order in which findings are reported.
#[derive(Debug, Clone, Copy, PartialEq, Eq, Structural)]
pub enum SortOrder {
    /// By file, then line (default).
    Path,
    /// Oldest commit first (implies `--blame`).
    Oldest,
    /// Newest commit first (implies `--blame`).
    Newest,
}

/// Subcommands.
#[derive(Debug, Clone, Copy, PartialEq, Eq, Structural)]
pub enum Command {
    /// Upgrade todork to the latest release.
    Upgrade,
}

/// todork — hyper-fast annotation scanner.
///
/// Scans source files for TODO, FIXME, HACK, and other annotation comments.
/// Exits 0 when annotations are found, 1 when none are found, 2 on error.
#[derive(Debug, Clone)]
pub struct Args {
    /// Paths to scan (files or directories). Defaults to the current directory.
    pub paths: Vec<String>,
    /// Output format (`--format`, `-f`).
    pub format: Format,
    /// Tags to scan for, case-insensitive (`--tags`, `-t`, comma-separated).
    pub tags: Vec<String>,
    /// Only scan files matching these globs (`-i`, repeatable).
    pub include_globs: Vec<String>,
    /// Skip files matching these globs (`--exclude`, `-e`, repeatable).
    pub exclude: Vec<String>,
    /// Disable .gitignore / .ignore file respecting (`--no-gitignore`).
    pub no_gitignore: bool,
    /// Include hidden files and directories (`--hidden`).
    pub hidden: bool,
    /// Maximum directory traversal depth (`--max-depth`).
    pub max_depth: Option<usize>,
    /// Skip files larger than this many bytes (`--max-filesize`).
    pub max_filesize: Option<u64>,
    /// Number of parallel threads (`--threads`).
    pub threads: Option<usize>,
    /// When to use colour in text output (`--color`).
    pub color: ColorWhen,
    /// Always exit with code 0, even when annotations are found (`--exit-zero`).
    pub exit_zero: bool,
    /// Enrich each finding with git blame data (`--blame`).
    pub blame: bool,
    /// Sort order of the findings (`--sort`, `-s`).
    pub sort: SortOrder,
    /// Maximum number of findings to display (`--limit`).
    pub limit: Option<usize>,
    /// Subcommand, if any.
    pub command: Option<Command>,
}

/// The mathematical value of [`Args`].
#[verifier::ext_equal]
pub struct ArgsView {
    pub paths: Seq<Seq<char>>,
    pub format: Format,
    pub tags: Seq<Seq<char>>,
    pub include_globs: Seq<Seq<char>>,
    pub exclude: Seq<Seq<char>>,
    pub no_gitignore: bool,
    pub hidden: bool,
    pub max_depth: Option<nat>,
    pub max_filesize: Option<nat>,
    pub threads: Option<nat>,
    pub color: ColorWhen,
    pub exit_zero: bool,
    pub blame: bool,
    pub sort: SortOrder,
    pub limit: Option<nat>,
    pub command: Option<Command>,
}

/// The views of a sequence of strings.
pub open spec fn strings_view(v: Seq<String>) -> Seq<Seq<char>> {
    v.map_values(|s: String| s@)
}

/// The view of an optional `usize`.
pub open spec fn opt_nat(o: Option<usize>) -> Option<nat> {
    match o {
        Some(v) => Some(v as nat),
        None => None,
    }
}

impl View for Args {
    type V = ArgsView;

    open spec fn view(&self) -> ArgsView {
        ArgsView {
            paths: strings_view(self.paths@),
            format: self.format,
            tags: strings_view(self.tags@),
            include_globs: strings_view(self.include_globs@),
            exclude: strings_view(self.exclude@),
            no_gitignore: self.no_gitignore,
            hidden: self.hidden,
            max_depth: opt_nat(self.max_depth),
            max_filesize: match self.max_filesize {
                Some(v) => Some(v as nat),
                None => None,
            },
            threads: opt_nat(self.threads),
            color: self.color,
            exit_zero: self.exit_zero,
            blame: self.blame,
            sort: self.sort,
            limit: opt_nat(self.limit),
            command: self.command,
        }
    }
}

/// Why a command line was not turned into [`Args`].
#[derive(Debug, Clone, Copy, PartialEq, Eq, Structural)]
pub enum ArgErrorKind {
    /// `--help`, `-h` or the `help` subcommand was given.
    HelpRequested,
    /// `--version` or `-V` was given.
    VersionRequested,
    /// A word that names no argument.
    UnknownArgument,
    /// An option without its value.
    MissingValue,
    /// A value the option does not accept.
    InvalidValue,
    /// A value attached to a flag that takes none.
    UnexpectedValue,
    /// An argument that may be given once, given twice.
    Repeated,
}

/// A command line that was not turned into [`Args`]: why, and the word
/// concerned.
#[derive(Debug, Clone)]
pub struct ArgError {
    pub kind: ArgErrorKind,
    pub arg: String,
}

/// The mathematical value of an [`ArgError`].
pub struct ArgErrorView {
    pub kind: ArgErrorKind,
    pub arg: Seq<char>,
}

impl View for ArgError {
    type V = ArgErrorView;

    open spec fn view(&self) -> ArgErrorView {
        ArgErrorView { kind: self.kind, arg: self.arg@ }
    }
}

/// The flags (arguments without a value).
#[derive(Debug, Clone, Copy, PartialEq, Eq, Structural)]
pub enum FlagArg {
    NoGitignore,
    Hidden,
    ExitZero,
    Blame,
}

/// The options (arguments with a value).
#[derive(Debug, Clone, Copy, PartialEq, Eq, Structural)]
pub enum OptArg {
    Format,
    Tags,
    Include,
    Exclude,
    MaxDepth,
    MaxFilesize,
    Threads,
    Color,
    Sort,
    Limit,
}

/// What a long argument name (after `--`) stands for.
#[derive(Debug, Clone, Copy, PartialEq, Eq, Structural)]
pub enum LongArg {
    Flag(FlagArg),
    Opt(OptArg),
    Help,
    Version,
    Unknown,
}

/// The meaning of a long argument name.
pub open spec fn long_arg(name: Seq<char>) -> LongArg {
    if name == "no-gitignore"@ {
        LongArg::Flag(FlagArg::NoGitignore)
    } else if name == "hidden"@ {
        LongArg::Flag(FlagArg::Hidden)
    } else if name == "exit-zero"@ {
        LongArg::Flag(FlagArg::ExitZero)
    } else if name == "blame"@ {
        LongArg::Flag(FlagArg::Blame)
    } else if name == "format"@ {
        LongArg::Opt(OptArg::Format)
    } else if name == "tags"@ {
        LongArg::Opt(OptArg::Tags)
    } else if name == "\u{69}nclude"@ {
        LongArg::Opt(OptArg::Include)
    } else if name == "exclude"@ {
        LongArg::Opt(OptArg::Exclude)
    } else if name == "max-depth"@ {
        LongArg::Opt(OptArg::MaxDepth)
    } else if name == "max-filesize"@ {
        LongArg::Opt(OptArg::MaxFilesize)
    } else if name == "threads"@ {
        LongArg::Opt(OptArg::Threads)
    } else if name == "color"@ {
        LongArg::Opt(OptArg::Color)
    } else if name == "sort"@ {
        LongArg::Opt(OptArg::Sort)
    } else if name == "limit"@ {
        LongArg::Opt(OptArg::Limit)
    } else if name == "help"@ {
        LongArg::Help
    } else if name == "version"@ {
        LongArg::Version
    } else {
        LongArg::Unknown
    }
}

fn long_arg_exec(name: &str) -> (r: LongArg)
    ensures
        r == long_arg(name@),
{
    if str_eq(name, "no-gitignore") {
        LongArg::Flag(FlagArg::NoGitignore)
    } else if str_eq(name, "hidden") {
        LongArg::Flag(FlagArg::Hidden)
    } else if str_eq(name, "exit-zero") {
        LongArg::Flag(FlagArg::ExitZero)
    } else if str_eq(name, "blame") {
        LongArg::Flag(FlagArg::Blame)
    } else if str_eq(name, "format") {
        LongArg::Opt(OptArg::Format)
    } else if str_eq(name, "tags") {
        LongArg::Opt(OptArg::Tags)
    } else if str_eq(name, "\u{69}nclude") {
        LongArg::Opt(OptArg::Include)
    } else if str_eq(name, "exclude") {
        LongArg::Opt(OptArg::Exclude)
    } else if str_eq(name, "max-depth") {
        LongArg::Opt(OptArg::MaxDepth)
    } else if str_eq(name, "max-filesize") {
        LongArg::Opt(OptArg::MaxFilesize)
    } else if str_eq(name, "threads") {
        LongArg::Opt(OptArg::Threads)
    } else if str_eq(name, "color") {
        LongArg::Opt(OptArg::Color)
    } else if str_eq(name, "sort") {
        LongArg::Opt(OptArg::Sort)
    } else if str_eq(name, "limit") {
        LongArg::Opt(OptArg::Limit)
    } else if str_eq(name, "help") {
        LongArg::Help
    } else if str_eq(name, "version") {
        LongArg::Version
    } else {
        LongArg::Unknown
    }
}

/// The option a short argument letter stands for.
pub open spec fn short_opt(c: char) -> Option<OptArg> {
    if c == 'f' {
        Some(OptArg::Format)
    } else if c == 't' {
        Some(OptArg::Tags)
    } else if c == 'i' {
        Some(OptArg::Include)
    } else if c == 'e' {
        Some(OptArg::Exclude)
    } else if c == 's' {
        Some(OptArg::Sort)
    } else {
        None
    }
}

/// The format a value names.
pub open spec fn parse_format(v: Seq<char>) -> Option<Format> {
    if v == "text"@ {
        Some(Format::Text)
    } else if v == "table"@ {
        Some(Format::Table)
    } else if v == "json"@ {
        Some(Format::Json)
    } else if v == "github-annotations"@ {
        Some(Format::GithubAnnotations)
    } else {
        None
    }
}

/// The colour setting a value names.
pub open spec fn parse_color(v: Seq<char>) -> Option<ColorWhen> {
    if v == "auto"@ {
        Some(ColorWhen::Auto)
    } else if v == "always"@ {
        Some(ColorWhen::Always)
    } else if v == "never"@ {
        Some(ColorWhen::Never)
    } else {
        None
    }
}

/// The sort order a value names.
pub open spec fn parse_sort(v: Seq<char>) -> Option<SortOrder> {
    if v == "path"@ {
        Some(SortOrder::Path)
    } else if v == "oldest"@ {
        Some(SortOrder::Oldest)
    } else if v == "newest"@ {
        Some(SortOrder::Newest)
    } else {
        None
    }
}

/// The index of the first `c` in `s` at or after `i`, or `s.len()`.
pub open spec fn find_char(s: Seq<char>, c: char, i: int) -> int
    decreases s.len() - i,
{
    if i >= s.len() {
        s.len() as int
    } else if s[i] == c {
        i
    } else {
        find_char(s, c, i + 1)
    }
}

/// The pieces of `s` between commas, from index `i` on (always at least one).
pub open spec fn comma_pieces(s: Seq<char>, i: int) -> Seq<Seq<char>>
    decreases s.len() + 1 - i,
{
    if i < 0 || i > s.len() {
        seq![]
    } else {
        let e = find_char(s, ',', i);
        if i <= e < s.len() {
            seq![s.subrange(i, e)] + comma_pieces(s, e + 1)
        } else {
            seq![s.subrange(i, s.len() as int)]
        }
    }
}

/// Where the parser stands between words.
#[verifier::ext_equal]
pub struct ParseState {
    pub args: ArgsView,
    pub seen_format: bool,
    pub seen_color: bool,
    pub seen_sort: bool,
    pub trailing: bool,
    pub after_path: bool,
}

/// The arguments before any word.
pub open spec fn initial_args() -> ArgsView {
    ArgsView {
        paths: seq![],
        format: Format::Text,
        tags: seq![],
        include_globs: seq![],
        exclude: seq![],
        no_gitignore: false,
        hidden: false,
        max_depth: None,
        max_filesize: None,
        threads: None,
        color: ColorWhen::Auto,
        exit_zero: false,
        blame: false,
        sort: SortOrder::Path,
        limit: None,
        command: None,
    }
}

/// The parser's state before any word.
pub open spec fn initial_parse_state() -> ParseState {
    ParseState {
        args: initial_args(),
        seen_format: false,
        seen_color: false,
        seen_sort: false,
        trailing: false,
        after_path: false,
    }
}

/// The arguments once all words are read: `"."` when no path was given.
pub open spec fn finish_args(a: ArgsView) -> ArgsView {
    if a.paths.len() == 0 {
        ArgsView { paths: seq!["."@], ..a }
    } else {
        a
    }
}

/// An error about the word `arg`.
pub open spec fn arg_err(kind: ArgErrorKind, arg: Seq<char>) -> ArgErrorView {
    ArgErrorView { kind, arg }
}

/// The state after the path `p`; empty paths are refused.
pub open spec fn add_path(st: ParseState, p: Seq<char>) -> Result<ParseState, ArgErrorView> {
    if p.len() == 0 {
        Err(arg_err(ArgErrorKind::InvalidValue, p))
    } else {
        Ok(ParseState { args: ArgsView { paths: st.args.paths.push(p), ..st.args }, after_path: true, ..st })
    }
}

/// The state after the flag `f`, written as the word `word`.
pub open spec fn apply_flag(st: ParseState, f: FlagArg, word: Seq<char>) -> Result<ParseState, ArgErrorView> {
    let a = st.args;
    match f {
        FlagArg::NoGitignore => if a.no_gitignore {
            Err(arg_err(ArgErrorKind::Repeated, word))
        } else {
            Ok(ParseState { args: ArgsView { no_gitignore: true, ..a }, after_path: false, ..st })
        },
        FlagArg::Hidden => if a.hidden {
            Err(arg_err(ArgErrorKind::Repeated, word))
        } else {
            Ok(ParseState { args: ArgsView { hidden: true, ..a }, after_path: false, ..st })
        },
        FlagArg::ExitZero => if a.exit_zero {
            Err(arg_err(ArgErrorKind::Repeated, word))
        } else {
            Ok(ParseState { args: ArgsView { exit_zero: true, ..a }, after_path: false, ..st })
        },
        FlagArg::Blame => if a.blame {
            Err(arg_err(ArgErrorKind::Repeated, word))
        } else {
            Ok(ParseState { args: ArgsView { blame: true, ..a }, after_path: false, ..st })
        },
    }
}

/// The state after `--format v`: refused when already given or when `v` is
/// not accepted.
pub open spec fn apply_format(st: ParseState, word: Seq<char>, v: Seq<char>) -> Result<
    ParseState,
    ArgErrorView,
> {
    if st.seen_format {
        Err(arg_err(ArgErrorKind::Repeated, word))
    } else {
        match parse_format(v) {
            Some(x) => Ok(
                ParseState { args: ArgsView { format: x, ..st.args }, after_path: false, seen_format: true, ..st },
            ),
            None => Err(arg_err(ArgErrorKind::InvalidValue, v)),
        }
    }
}

/// The state after `--color v`: refused when already given or when `v` is
/// not accepted.
pub open spec fn apply_color(st: ParseState, word: Seq<char>, v: Seq<char>) -> Result<
    ParseState,
    ArgErrorView,
> {
    if st.seen_color {
        Err(arg_err(ArgErrorKind::Repeated, word))
    } else {
        match parse_color(v) {
            Some(x) => Ok(
                ParseState { args: ArgsView { color: x, ..st.args }, after_path: false, seen_color: true, ..st },
            ),
            None => Err(arg_err(ArgErrorKind::InvalidValue, v)),
        }
    }
}

/// The state after `--sort v`: refused when already given or when `v` is
/// not accepted.
pub open spec fn apply_sort(st: ParseState, word: Seq<char>, v: Seq<char>) -> Result<
    ParseState,
    ArgErrorView,
> {
    if st.seen_sort {
        Err(arg_err(ArgErrorKind::Repeated, word))
    } else {
        match parse_sort(v) {
            Some(x) => Ok(
                ParseState { args: ArgsView { sort: x, ..st.args }, after_path: false, seen_sort: true, ..st },
            ),
            None => Err(arg_err(ArgErrorKind::InvalidValue, v)),
        }
    }
}

/// The state after `--max-depth v`: refused when already given or when `v` is
/// not accepted.
pub open spec fn apply_max_depth(st: ParseState, word: Seq<char>, v: Seq<char>) -> Result<
    ParseState,
    ArgErrorView,
> {
    if st.args.max_depth is Some {
        Err(arg_err(ArgErrorKind::Repeated, word))
    } else {
        match parse_usize(v) {
            Some(x) => Ok(
                ParseState { args: ArgsView { max_depth: Some(x), ..st.args }, after_path: false, ..st },
            ),
            None => Err(arg_err(ArgErrorKind::InvalidValue, v)),
        }
    }
}

/// The state after `--max-filesize v`: refused when already given or when `v` is
/// not accepted.
pub open spec fn apply_max_filesize(st: ParseState, word: Seq<char>, v: Seq<char>) -> Result<
    ParseState,
    ArgErrorView,
> {
    if st.args.max_filesize is Some {
        Err(arg_err(ArgErrorKind::Repeated, word))
    } else {
        match parse_u64(v) {
            Some(x) => Ok(
                ParseState { args: ArgsView { max_filesize: Some(x), ..st.args }, after_path: false, ..st },
            ),
            None => Err(arg_err(ArgErrorKind::InvalidValue, v)),
        }
    }
}

/// The state after `--threads v`: refused when already given or when `v` is
/// not accepted.
pub open spec fn apply_threads(st: ParseState, word: Seq<char>, v: Seq<char>) -> Result<
    ParseState,
    ArgErrorView,
> {
    if st.args.threads is Some {
        Err(arg_err(ArgErrorKind::Repeated, word))
    } else {
        match parse_usize(v) {
            Some(x) => Ok(
                ParseState { args: ArgsView { threads: Some(x), ..st.args }, after_path: false, ..st },
            ),
            None => Err(arg_err(ArgErrorKind::InvalidValue, v)),
        }
    }
}

/// The state after `--limit v`: refused when already given or when `v` is
/// not accepted.
pub open spec fn apply_limit(st: ParseState, word: Seq<char>, v: Seq<char>) -> Result<
    ParseState,
    ArgErrorView,
> {
    if st.args.limit is Some {
        Err(arg_err(ArgErrorKind::Repeated, word))
    } else {
        match parse_usize(v) {
            Some(x) => Ok(
                ParseState { args: ArgsView { limit: Some(x), ..st.args }, after_path: false, ..st },
            ),
            None => Err(arg_err(ArgErrorKind::InvalidValue, v)),
        }
    }
}

/// The state after `--tags v`: the comma-separated pieces of `v` are added.
pub open spec fn apply_tags(st: ParseState, v: Seq<char>) -> ParseState {
    ParseState { args: ArgsView { tags: st.args.tags + comma_pieces(v, 0), ..st.args }, after_path: false, ..st }
}

/// The state after `-i v`: the glob `v` is added to those of files to scan.
pub open spec fn apply_include(st: ParseState, v: Seq<char>) -> ParseState {
    ParseState { args: ArgsView { include_globs: st.args.include_globs.push(v), ..st.args }, after_path: false, ..st }
}

/// The state after `--exclude v`: the glob `v` is added to those of files to skip.
pub open spec fn apply_exclude(st: ParseState, v: Seq<char>) -> ParseState {
    ParseState { args: ArgsView { exclude: st.args.exclude.push(v), ..st.args }, after_path: false, ..st }
}

/// The state after the option `o` with value `v`, written as the word `word`.
pub open spec fn apply_opt(st: ParseState, o: OptArg, word: Seq<char>, v: Seq<char>) -> Result<
    ParseState,
    ArgErrorView,
> {
    let a = st.args;
    match o {
        OptArg::Format => apply_format(st, word, v),
        OptArg::Tags => Ok(apply_tags(st, v)),
        OptArg::Include => Ok(apply_include(st, v)),
        OptArg::Exclude => Ok(apply_exclude(st, v)),
        OptArg::MaxDepth => apply_max_depth(st, word, v),
        OptArg::MaxFilesize => apply_max_filesize(st, word, v),
        OptArg::Threads => apply_threads(st, word, v),
        OptArg::Color => apply_color(st, word, v),
        OptArg::Sort => apply_sort(st, word, v),
        OptArg::Limit => apply_limit(st, word, v),
    }
}

/// What `u64::from_str` accepts: an optional `'+'`, then decimal digits
/// whose value fits in a `u64`.
pub open spec fn parse_u64(s: Seq<char>) -> Option<nat> {
    let d = crate::text::drop_plus(s);
    if crate::text::is_digits(d) && crate::text::digits_value(d) <= u64::MAX {
        Some(crate::text::digits_value(d))
    } else {
        None
    }
}

/// Whether a word can be the value of an option: it does not look like
/// an argument (a `-` followed by something).
pub open spec fn is_value_word(w: Seq<char>) -> bool {
    !(w.len() >= 2 && w[0] == '-')
}

/// One step of the parser on word `i`.
pub enum ParseStep {
    /// Go on at word `next` in state `st`.
    Next(int, ParseState),
    /// The command line is complete.
    Done(ArgsView),
    /// The command line is refused.
    Fail(ArgErrorView),
}

/// The value of an option whose word is `toks[i]` and whose attached value
/// (after `=`, or after a short letter) is `attached`: that value, or the
/// next word.  Then the state and where to go on.
pub open spec fn opt_step(
    toks: Seq<Seq<char>>,
    i: int,
    st: ParseState,
    o: OptArg,
    attached: Option<Seq<char>>,
) -> ParseStep {
    let word = toks[i];
    match attached {
        Some(v) => match apply_opt(st, o, word, v) {
            Ok(st2) => ParseStep::Next(i + 1, st2),
            Err(e) => ParseStep::Fail(e),
        },
        None => if i + 1 < toks.len() && is_value_word(toks[i + 1]) {
            match apply_opt(st, o, word, toks[i + 1]) {
                Ok(st2) => ParseStep::Next(i + 2, st2),
                Err(e) => ParseStep::Fail(e),
            }
        } else {
            ParseStep::Fail(arg_err(ArgErrorKind::MissingValue, word))
        },
    }
}

/// One step of the parser on word `i` (with `0 <= i < toks.len()`).
pub open spec fn parse_step(toks: Seq<Seq<char>>, i: int, st: ParseState) -> ParseStep {
    let t = toks[i];
    if st.trailing {
        match add_path(st, t) {
            Ok(st2) => ParseStep::Next(i + 1, st2),
            Err(e) => ParseStep::Fail(e),
        }
    } else if t == "--"@ {
        ParseStep::Next(i + 1, ParseState { trailing: true, ..st })
    } else if t.len() > 2 && t[0] == '-' && t[1] == '-' {
        let body = t.skip(2);
        let eq = find_char(body, '=', 0);
        let name = body.take(eq);
        let attached = if eq < body.len() {
            Some(body.skip(eq + 1))
        } else {
            None
        };
        match long_arg(name) {
            LongArg::Flag(f) => if attached is Some {
                ParseStep::Fail(arg_err(ArgErrorKind::UnexpectedValue, t))
            } else {
                match apply_flag(st, f, t) {
                    Ok(st2) => ParseStep::Next(i + 1, st2),
                    Err(e) => ParseStep::Fail(e),
                }
            },
            LongArg::Opt(o) => opt_step(toks, i, st, o, attached),
            LongArg::Help => ParseStep::Fail(arg_err(ArgErrorKind::HelpRequested, t)),
            LongArg::Version => ParseStep::Fail(arg_err(ArgErrorKind::VersionRequested, t)),
            LongArg::Unknown => ParseStep::Fail(arg_err(ArgErrorKind::UnknownArgument, t)),
        }
    } else if t.len() >= 2 && t[0] == '-' {
        if t == "-h"@ {
            ParseStep::Fail(arg_err(ArgErrorKind::HelpRequested, t))
        } else if t == "-V"@ {
            ParseStep::Fail(arg_err(ArgErrorKind::VersionRequested, t))
        } else {
            match short_opt(t[1]) {
                Some(o) => {
                    let rest = t.skip(2);
                    let attached = if rest.len() == 0 {
                        None
                    } else if rest[0] == '=' {
                        Some(rest.skip(1))
                    } else {
                        Some(rest)
                    };
                    opt_step(toks, i, st, o, attached)
                },
                None => ParseStep::Fail(arg_err(ArgErrorKind::UnknownArgument, t)),
            }
        }
    } else if !st.after_path && t == "upgrade"@ {
        if i + 1 == toks.len() {
            ParseStep::Done(ArgsView { command: Some(Command::Upgrade), ..finish_args(st.args) })
        } else {
            ParseStep::Fail(arg_err(ArgErrorKind::UnknownArgument, toks[i + 1]))
        }
    } else if !st.after_path && t == "help"@ {
        ParseStep::Fail(arg_err(ArgErrorKind::HelpRequested, t))
    } else {
        match add_path(st, t) {
            Ok(st2) => ParseStep::Next(i + 1, st2),
            Err(e) => ParseStep::Fail(e),
        }
    }
}

/// The arguments the words `toks[i..]` make from state `st`.
pub open spec fn parse_words(toks: Seq<Seq<char>>, i: int, st: ParseState) -> Result<
    ArgsView,
    ArgErrorView,
>
    decreases toks.len() - i,
{
    if i < 0 || i >= toks.len() {
        Ok(finish_args(st.args))
    } else {
        match parse_step(toks, i, st) {
            ParseStep::Next(j, st2) => if i < j {
                parse_words(toks, j, st2)
            } else {
                Ok(finish_args(st2.args))
            },
            ParseStep::Done(a) => Ok(a),
            ParseStep::Fail(e) => Err(e),
        }
    }
}

/// The arguments a command line makes; its first word is the program's name.
pub open spec fn parse_command_line(argv: Seq<Seq<char>>) -> Result<ArgsView, ArgErrorView> {
    let words = if argv.len() == 0 {
        argv
    } else {
        argv.skip(1)
    };
    parse_words(words, 0, initial_parse_state())
}

// ── The parser ────────────────────────────────────────────────────────────────

/// The pieces of `v` between commas.
fn split_commas(v: &str) -> (r: Vec<String>)
    ensures
        strings_view(r@) == comma_pieces(v@, 0),
{
    let cs = chars_of(v);
    let ghost s = cs@;
    let len = cs.len();
    let mut out: Vec<String> = Vec::new();
    let mut i: usize = 0;
    loop
        invariant_except_break
            strings_view(out@) + comma_pieces(s, i as int) == comma_pieces(s, 0),
        invariant
            0 <= i <= len,
            len == s.len(),
            s == cs@,
            s == v@,
        ensures
            strings_view(out@) == comma_pieces(s, 0),
        decreases len - i,
    {
        let mut e: usize = i;
        while e < len && cs[e] != ','
            invariant
                i <= e <= len,
                len == s.len(),
                s == cs@,
                find_char(s, ',', e as int) == find_char(s, ',', i as int),
            decreases len - e,
        {
            e += 1;
        }
        let piece = string_of(&cs, i, e);
        let ghost before = strings_view(out@);
        out.push(piece);
        assert(strings_view(out@) =~= before.push(s.subrange(i as int, e as int)));
        if e >= len {
            assert(comma_pieces(s, i as int) == seq![s.subrange(i as int, e as int)]);
            assert(strings_view(out@) =~= before + comma_pieces(s, i as int));
            break;
        }
        assert(comma_pieces(s, i as int) == seq![s.subrange(i as int, e as int)] + comma_pieces(
            s,
            e + 1,
        ));
        assert(strings_view(out@) + comma_pieces(s, e + 1) =~= before + comma_pieces(s, i as int));
        i = e + 1;
    }
    out
}

fn parse_format_exec(v: &str) -> (r: Option<Format>)
    ensures
        r == parse_format(v@),
{
    if str_eq(v, "text") {
        Some(Format::Text)
    } else if str_eq(v, "table") {
        Some(Format::Table)
    } else if str_eq(v, "json") {
        Some(Format::Json)
    } else if str_eq(v, "github-annotations") {
        Some(Format::GithubAnnotations)
    } else {
        None
    }
}

fn parse_color_exec(v: &str) -> (r: Option<ColorWhen>)
    ensures
        r == parse_color(v@),
{
    if str_eq(v, "auto") {
        Some(ColorWhen::Auto)
    } else if str_eq(v, "always") {
        Some(ColorWhen::Always)
    } else if str_eq(v, "never") {
        Some(ColorWhen::Never)
    } else {
        None
    }
}

fn parse_sort_exec(v: &str) -> (r: Option<SortOrder>)
    ensures
        r == parse_sort(v@),
{
    if str_eq(v, "path") {
        Some(SortOrder::Path)
    } else if str_eq(v, "oldest") {
        Some(SortOrder::Oldest)
    } else if str_eq(v, "newest") {
        Some(SortOrder::Newest)
    } else {
        None
    }
}

fn parse_usize_str(v: &str) -> (r: Option<usize>)
    ensures
        opt_nat(r) == parse_usize(v@),
{
    let cs = chars_of(v);
    parse_usize_exec(&cs)
}

fn parse_u64_str(v: &str) -> (r: Option<u64>)
    ensures
        match r {
            Some(n) => parse_u64(v@) == Some(n as nat),
            None => parse_u64(v@) is None,
        },
{
    // A `usize` is at least as wide as a `u64` on the targets todork is
    // built for only when it has 64 bits, so the value is parsed here.
    let cs = chars_of(v);
    let from: usize = if cs.len() > 0 && cs[0] == '+' {
        1
    } else {
        0
    };
    assert(crate::text::drop_plus(cs@) =~= cs@.skip(from as int));
    match crate::text::digits_at_most(&cs, from, u64::MAX as u128) {
        Some(n) => Some(n as u64),
        None => None,
    }
}

/// An error about the word `arg`.
fn err(kind: ArgErrorKind, arg: &str) -> (r: ArgError)
    ensures
        r@ == arg_err(kind, arg@),
{
    ArgError { kind, arg: crate::text::owned(arg) }
}

/// The parser's state between words.
struct Parser {
    args: Args,
    seen_format: bool,
    seen_color: bool,
    seen_sort: bool,
    trailing: bool,
    after_path: bool,
}

impl View for Parser {
    type V = ParseState;

    closed spec fn view(&self) -> ParseState {
        ParseState {
            args: self.args@,
            seen_format: self.seen_format,
            seen_color: self.seen_color,
            seen_sort: self.seen_sort,
            trailing: self.trailing,
            after_path: self.after_path,
        }
    }
}

/// What one step of the parser did.
enum Outcome {
    Next(usize),
    Done,
    Fail(ArgError),
}

/// Whether an exec result matches a spec result.
spec fn result_matches(r: Result<(), ArgError>, new: ParseState, expected: Result<ParseState, ArgErrorView>) -> bool {
    match expected {
        Ok(st) => r is Ok && new == st,
        Err(e) => r matches Err(x) && x@ == e,
    }
}

impl Parser {
    fn add_path(&mut self, p: &str) -> (r: Result<(), ArgError>)
        ensures
            result_matches(r, final(self)@, add_path(old(self)@, p@)),
    {
        if p.is_empty() {
            return Err(err(ArgErrorKind::InvalidValue, p));
        }
        let ghost before = self.args.paths@;
        self.args.paths.push(crate::text::owned(p));
        assert(strings_view(self.args.paths@) =~= strings_view(before).push(p@));
        self.after_path = true;
        assert(self@ =~= add_path(old(self)@, p@)->Ok_0);
        Ok(())
    }

    #[verifier::rlimit(40)]
    fn apply_flag(&mut self, f: FlagArg, word: &str) -> (r: Result<(), ArgError>)
        ensures
            result_matches(r, final(self)@, apply_flag(old(self)@, f, word@)),
    {
        match f {
            FlagArg::NoGitignore => {
                if self.args.no_gitignore {
                    return Err(err(ArgErrorKind::Repeated, word));
                }
                self.args.no_gitignore = true;
            },
            FlagArg::Hidden => {
                if self.args.hidden {
                    return Err(err(ArgErrorKind::Repeated, word));
                }
                self.args.hidden = true;
            },
            FlagArg::ExitZero => {
                if self.args.exit_zero {
                    return Err(err(ArgErrorKind::Repeated, word));
                }
                self.args.exit_zero = true;
            },
            FlagArg::Blame => {
                if self.args.blame {
                    return Err(err(ArgErrorKind::Repeated, word));
                }
                self.args.blame = true;
            },
        }
        self.after_path = false;
        assert(self@ =~= apply_flag(old(self)@, f, word@)->Ok_0);
        Ok(())
    }

    fn set_format(&mut self, word: &str, v: &str) -> (r: Result<(), ArgError>)
        ensures
            result_matches(r, final(self)@, apply_format(old(self)@, word@, v@)),
    {
        if self.seen_format {
            return Err(err(ArgErrorKind::Repeated, word));
        }
        match parse_format_exec(v) {
            Some(x) => {
                self.args.format = x;
                self.seen_format = true;
                self.after_path = false;
                assert(self@ =~= apply_format(old(self)@, word@, v@)->Ok_0);
                Ok(())
            },
            None => Err(err(ArgErrorKind::InvalidValue, v)),
        }
    }

    fn set_color(&mut self, word: &str, v: &str) -> (r: Result<(), ArgError>)
        ensures
            result_matches(r, final(self)@, apply_color(old(self)@, word@, v@)),
    {
        if self.seen_color {
            return Err(err(ArgErrorKind::Repeated, word));
        }
        match parse_color_exec(v) {
            Some(x) => {
                self.args.color = x;
                self.seen_color = true;
                self.after_path = false;
                assert(self@ =~= apply_color(old(self)@, word@, v@)->Ok_0);
                Ok(())
            },
            None => Err(err(ArgErrorKind::InvalidValue, v)),
        }
    }

    fn set_sort(&mut self, word: &str, v: &str) -> (r: Result<(), ArgError>)
        ensures
            result_matches(r, final(self)@, apply_sort(old(self)@, word@, v@)),
    {
        if self.seen_sort {
            return Err(err(ArgErrorKind::Repeated, word));
        }
        match parse_sort_exec(v) {
            Some(x) => {
                self.args.sort = x;
                self.seen_sort = true;
                self.after_path = false;
                assert(self@ =~= apply_sort(old(self)@, word@, v@)->Ok_0);
                Ok(())
            },
            None => Err(err(ArgErrorKind::InvalidValue, v)),
        }
    }

    fn set_max_depth(&mut self, word: &str, v: &str) -> (r: Result<(), ArgError>)
        ensures
            result_matches(r, final(self)@, apply_max_depth(old(self)@, word@, v@)),
    {
        if self.args.max_depth.is_some() {
            return Err(err(ArgErrorKind::Repeated, word));
        }
        match parse_usize_str(v) {
            Some(x) => {
                self.args.max_depth = Some(x);
                self.after_path = false;
                assert(self@ =~= apply_max_depth(old(self)@, word@, v@)->Ok_0);
                Ok(())
            },
            None => Err(err(ArgErrorKind::InvalidValue, v)),
        }
    }

    fn set_max_filesize(&mut self, word: &str, v: &str) -> (r: Result<(), ArgError>)
        ensures
            result_matches(r, final(self)@, apply_max_filesize(old(self)@, word@, v@)),
    {
        if self.args.max_filesize.is_some() {
            return Err(err(ArgErrorKind::Repeated, word));
        }
        match parse_u64_str(v) {
            Some(x) => {
                self.args.max_filesize = Some(x);
                self.after_path = false;
                assert(self@ =~= apply_max_filesize(old(self)@, word@, v@)->Ok_0);
                Ok(())
            },
            None => Err(err(ArgErrorKind::InvalidValue, v)),
        }
    }

    fn set_threads(&mut self, word: &str, v: &str) -> (r: Result<(), ArgError>)
        ensures
            result_matches(r, final(self)@, apply_threads(old(self)@, word@, v@)),
    {
        if self.args.threads.is_some() {
            return Err(err(ArgErrorKind::Repeated, word));
        }
        match parse_usize_str(v) {
            Some(x) => {
                self.args.threads = Some(x);
                self.after_path = false;
                assert(self@ =~= apply_threads(old(self)@, word@, v@)->Ok_0);
                Ok(())
            },
            None => Err(err(ArgErrorKind::InvalidValue, v)),
        }
    }

    fn set_limit(&mut self, word: &str, v: &str) -> (r: Result<(), ArgError>)
        ensures
            result_matches(r, final(self)@, apply_limit(old(self)@, word@, v@)),
    {
        if self.args.limit.is_some() {
            return Err(err(ArgErrorKind::Repeated, word));
        }
        match parse_usize_str(v) {
            Some(x) => {
                self.args.limit = Some(x);
                self.after_path = false;
                assert(self@ =~= apply_limit(old(self)@, word@, v@)->Ok_0);
                Ok(())
            },
            None => Err(err(ArgErrorKind::InvalidValue, v)),
        }
    }

    fn add_tags(&mut self, v: &str)
        ensures
            final(self)@ == apply_tags(old(self)@, v@),
    {
        let mut pieces = split_commas(v);
        let ghost before = self.args.tags@;
        let ghost added = pieces@;
        self.args.tags.append(&mut pieces);
        assert(strings_view(self.args.tags@) =~= strings_view(before) + strings_view(added));
        self.after_path = false;
        assert(self@ =~= apply_tags(old(self)@, v@));
    }

    fn add_include(&mut self, v: &str)
        ensures
            final(self)@ == apply_include(old(self)@, v@),
    {
        let ghost before = self.args.include_globs@;
        self.args.include_globs.push(crate::text::owned(v));
        assert(strings_view(self.args.include_globs@) =~= strings_view(before).push(v@));
        self.after_path = false;
        assert(self@ =~= apply_include(old(self)@, v@));
    }

    fn add_exclude(&mut self, v: &str)
        ensures
            final(self)@ == apply_exclude(old(self)@, v@),
    {
        let ghost before = self.args.exclude@;
        self.args.exclude.push(crate::text::owned(v));
        assert(strings_view(self.args.exclude@) =~= strings_view(before).push(v@));
        self.after_path = false;
        assert(self@ =~= apply_exclude(old(self)@, v@));
    }

    fn apply_opt(&mut self, o: OptArg, word: &str, v: &str) -> (r: Result<(), ArgError>)
        ensures
            result_matches(r, final(self)@, apply_opt(old(self)@, o, word@, v@)),
    {
        match o {
            OptArg::Format => self.set_format(word, v),
            OptArg::Tags => {
                self.add_tags(v);
                Ok(())
            },
            OptArg::Include => {
                self.add_include(v);
                Ok(())
            },
            OptArg::Exclude => {
                self.add_exclude(v);
                Ok(())
            },
            OptArg::MaxDepth => self.set_max_depth(word, v),
            OptArg::MaxFilesize => self.set_max_filesize(word, v),
            OptArg::Threads => self.set_threads(word, v),
            OptArg::Color => self.set_color(word, v),
            OptArg::Sort => self.set_sort(word, v),
            OptArg::Limit => self.set_limit(word, v),
        }
    }

    /// The arguments once all words are read.
    fn finish(self) -> (r: Args)
        ensures
            r@ == finish_args(self@.args),
    {
        let mut args = self.args;
        if args.paths.len() == 0 {
            args.paths.push(crate::text::owned("."));
            assert(args@ =~= finish_args(self@.args));
        }
        args
    }
}

/// Whether a word can be the value of an option.
fn is_value_word_exec(w: &str) -> (r: bool)
    ensures
        r == is_value_word(w@),
{
    let cs = chars_of(w);
    !(cs.len() >= 2 && cs[0] == '-')
}

/// The outcome that matches the spec step `expected`.
spec fn outcome_matches(o: Outcome, p: Parser, expected: ParseStep) -> bool {
    match expected {
        ParseStep::Next(j, st) => o matches Outcome::Next(k) && k == j && p@ == st,
        ParseStep::Done(a) => o is Done && a == ArgsView {
            command: Some(Command::Upgrade),
            ..finish_args(p@.args)
        },
        ParseStep::Fail(e) => o matches Outcome::Fail(x) && x@ == e,
    }
}

/// The words of a command line after the program's name.
pub open spec fn words_view(argv: Seq<&str>) -> Seq<Seq<char>> {
    argv.map_values(|s: &str| s@)
}

impl Parser {
    /// Reads the option `o` whose word is `toks[i]`, with `attached` its
    /// attached value if any.
    fn opt_step(&mut self, toks: &[&str], i: usize, o: OptArg, attached: Option<String>) -> (r: Outcome)
        requires
            i < toks@.len(),
        ensures
            outcome_matches(
                r,
                *final(self),
                opt_step(words_view(toks@), i as int, old(self)@, o, opt_view(attached)),
            ),
    {
        let ghost w = words_view(toks@);
        let word = toks[i];
        assert(word@ == w[i as int]);
        match attached {
            Some(v) => match self.apply_opt(o, word, v.as_str()) {
                Ok(()) => Outcome::Next(i + 1),
                Err(e) => Outcome::Fail(e),
            },
            None => {
                if i + 1 < toks.len() && is_value_word_exec(toks[i + 1]) {
                    assert(toks[i + 1 as int]@ == w[i + 1]);
                    match self.apply_opt(o, word, toks[i + 1]) {
                        Ok(()) => Outcome::Next(i + 2),
                        Err(e) => Outcome::Fail(e),
                    }
                } else {
                    Outcome::Fail(err(ArgErrorKind::MissingValue, word))
                }
            },
        }
    }

    /// One step of the parser on word `i`.
    fn step(&mut self, toks: &[&str], i: usize) -> (r: Outcome)
        requires
            i < toks@.len(),
        ensures
            outcome_matches(r, *final(self), parse_step(words_view(toks@), i as int, old(self)@)),
    {
        let ghost w = words_view(toks@);
        let t = toks[i];
        assert(t@ == w[i as int]);
        if self.trailing {
            return match self.add_path(t) {
                Ok(()) => Outcome::Next(i + 1),
                Err(e) => Outcome::Fail(e),
            };
        }
        if str_eq(t, "--") {
            self.trailing = true;
            assert(self@ =~= ParseState { trailing: true, ..old(self)@ });
            return Outcome::Next(i + 1);
        }
        let cs = chars_of(t);
        let len = cs.len();
        if len > 2 && cs[0] == '-' && cs[1] == '-' {
            let mut eq: usize = 2;
            while eq < len && cs[eq] != '='
                invariant
                    2 <= eq <= len,
                    len == cs@.len(),
                    find_char(cs@.skip(2), '=', eq - 2) == find_char(cs@.skip(2), '=', 0),
                decreases len - eq,
            {
                eq += 1;
            }
            assert(find_char(cs@.skip(2), '=', 0) == eq - 2);
            let name = string_of(&cs, 2, eq);
            assert(name@ =~= cs@.skip(2).take(eq - 2));
            let attached = if eq < len {
                let v = string_of(&cs, eq + 1, len);
                assert(v@ =~= cs@.skip(2).skip(eq - 2 + 1));
                Some(v)
            } else {
                None
            };
            match long_arg_exec(name.as_str()) {
                LongArg::Flag(f) => {
                    if attached.is_some() {
                        return Outcome::Fail(err(ArgErrorKind::UnexpectedValue, t));
                    }
                    match self.apply_flag(f, t) {
                        Ok(()) => Outcome::Next(i + 1),
                        Err(e) => Outcome::Fail(e),
                    }
                },
                LongArg::Opt(o) => self.opt_step(toks, i, o, attached),
                LongArg::Help => Outcome::Fail(err(ArgErrorKind::HelpRequested, t)),
                LongArg::Version => Outcome::Fail(err(ArgErrorKind::VersionRequested, t)),
                LongArg::Unknown => Outcome::Fail(err(ArgErrorKind::UnknownArgument, t)),
            }
        } else if len >= 2 && cs[0] == '-' {
            if str_eq(t, "-h") {
                Outcome::Fail(err(ArgErrorKind::HelpRequested, t))
            } else if str_eq(t, "-V") {
                Outcome::Fail(err(ArgErrorKind::VersionRequested, t))
            } else {
                let c = cs[1];
                let o = if c == 'f' {
                    Some(OptArg::Format)
                } else if c == 't' {
                    Some(OptArg::Tags)
                } else if c == 'i' {
                    Some(OptArg::Include)
                } else if c == 'e' {
                    Some(OptArg::Exclude)
                } else if c == 's' {
                    Some(OptArg::Sort)
                } else {
                    None
                };
                assert(o == short_opt(cs@[1]));
                match o {
                    Some(o) => {
                        let attached = if len == 2 {
                            None
                        } else if cs[2] == '=' {
                            let v = string_of(&cs, 3, len);
                            assert(v@ =~= cs@.skip(2).skip(1));
                            Some(v)
                        } else {
                            let v = string_of(&cs, 2, len);
                            assert(v@ =~= cs@.skip(2));
                            Some(v)
                        };
                        self.opt_step(toks, i, o, attached)
                    },
                    None => Outcome::Fail(err(ArgErrorKind::UnknownArgument, t)),
                }
            }
        } else if !self.after_path && str_eq(t, "upgrade") {
            if i + 1 == toks.len() {
                Outcome::Done
            } else {
                assert(toks[i + 1 as int]@ == w[i + 1]);
                Outcome::Fail(err(ArgErrorKind::UnknownArgument, toks[i + 1]))
            }
        } else if !self.after_path && str_eq(t, "help") {
            Outcome::Fail(err(ArgErrorKind::HelpRequested, t))
        } else {
            match self.add_path(t) {
                Ok(()) => Outcome::Next(i + 1),
                Err(e) => Outcome::Fail(e),
            }
        }
    }
}

impl Args {
    /// Parse a command line whose first word is the program's name, with
    /// the grammar that the `todork` command accepts: long options as
    /// `--name value` or `--name=value`, the short options `-f`, `-t`,
    /// `-i`, `-e` and `-s` with their value attached or in the next word,
    /// paths anywhere (all words after `--`), and the `upgrade` subcommand
    /// where a path cannot continue.
    pub fn parse_from(argv: &[&str]) -> (r: Result<Args, ArgError>)
        ensures
            match parse_command_line(words_view(argv@)) {
                Ok(a) => r matches Ok(x) && x@ == a,
                Err(e) => r matches Err(x) && x@ == e,
            },
    {
        let ghost toks = if argv@.len() == 0 {
            words_view(argv@)
        } else {
            words_view(argv@).skip(1)
        };
        let mut p = Parser {
            args: Args {
                paths: Vec::new(),
                format: Format::Text,
                tags: Vec::new(),
                include_globs: Vec::new(),
                exclude: Vec::new(),
                no_gitignore: false,
                hidden: false,
                max_depth: None,
                max_filesize: None,
                threads: None,
                color: ColorWhen::Auto,
                exit_zero: false,
                blame: false,
                sort: SortOrder::Path,
                limit: None,
                command: None,
            },
            seen_format: false,
            seen_color: false,
            seen_sort: false,
            trailing: false,
            after_path: false,
        };
        assert(p@ =~= initial_parse_state());
        if argv.len() == 0 {
            assert(toks.len() == 0);
            return Ok(p.finish());
        }
        let words = vstd::slice::slice_subrange(argv, 1, argv.len());
        assert(words_view(words@) =~= toks);
        let mut i: usize = 0;
        while i < words.len()
            invariant
                0 <= i <= words@.len(),
                words_view(words@) == toks,
                parse_words(toks, i as int, p@) == parse_command_line(words_view(argv@)),
            decreases words@.len() - i,
        {
            match p.step(words, i) {
                Outcome::Next(j) => {
                    i = j;
                },
                Outcome::Done => {
                    let mut args = p.finish();
                    args.command = Some(Command::Upgrade);
                    assert(args@ =~= ArgsView { command: Some(Command::Upgrade), ..finish_args(p@.args) });
                    return Ok(args);
                },
                Outcome::Fail(e) => {
                    return Err(e);
                },
            }
        }
        Ok(p.finish())
    }
}

} // verus!
