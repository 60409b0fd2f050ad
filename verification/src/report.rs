//! The decisions a run makes around a scan: which tags to look for, how
//! many findings to show, whether to colour and page the output, which
//! files to ask `git blame` about, and what the process exits with.
//!
//! Walking the file tree, running `git`, paging and writing to the
//! terminal are left to the caller, which hands the results in.

use vstd::prelude::*;

use crate::cli::{strings_view, ColorWhen};
use crate::exit_code::ExitCode;
use crate::matcher::{
    copy_tag, default_tag_views, default_tags, distinct_files, distinct_paths, files_of, finding_views,
    tag_views, Finding, Tag,
};

verus! {

// ── Tags ──────────────────────────────────────────────────────────────────────

/// The tags a run looks for: the configured ones, or the defaults when
/// none are configured.
pub fn scan_tags(configured: &[Tag]) -> (r: Vec<Tag>)
    ensures
        tag_views(r@) == if configured@.len() == 0 {
            default_tag_views()
        } else {
            tag_views(configured@)
        },
{
    if configured.len() == 0 {
        return default_tags();
    }
    let mut r: Vec<Tag> = Vec::new();
    let mut i: usize = 0;
    while i < configured.len()
        invariant
            0 <= i <= configured@.len(),
            tag_views(r@) == tag_views(configured@.take(i as int)),
        decreases configured@.len() - i,
    {
        let t = copy_tag(&configured[i]);
        let ghost before = r@;
        r.push(t);
        assert(r@ == before.push(t));
        assert(configured@.take(i + 1) =~= configured@.take(i as int).push(configured@[i as int]));
        assert(tag_views(r@) =~= tag_views(before).push(t@));
        assert(tag_views(configured@.take(i + 1)) =~= tag_views(configured@.take(i as int)).push(configured@[i as int]@));
        i += 1;
    }
    assert(configured@.take(configured@.len() as int) =~= configured@);
    r
}

// ── How many to show ──────────────────────────────────────────────────────────

/// How many of `total` findings are shown: all of them, or at most `limit`.
pub open spec fn shown(total: nat, limit: Option<usize>) -> nat {
    match limit {
        Some(n) => if n < total {
            n as nat
        } else {
            total
        },
        None => total,
    }
}

/// The number of findings shown out of `total` under `limit`.
pub fn displayed_count(total: usize, limit: Option<usize>) -> (r: usize)
    ensures
        r == shown(total as nat, limit),
{
    match limit {
        Some(n) => if n < total {
            n
        } else {
            total
        },
        None => total,
    }
}

/// The findings that are shown: the first ones, as many as `limit` allows.
pub fn limit_findings(findings: Vec<Finding>, limit: Option<usize>) -> (r: Vec<Finding>)
    ensures
        r@ == findings@.take(shown(findings@.len(), limit) as int),
{
    let n = displayed_count(findings.len(), limit);
    let mut r = findings;
    r.truncate(n);
    r
}

// ── Terminal ──────────────────────────────────────────────────────────────────

/// Number of findings displayed on a terminal before human-readable output
/// is piped through a pager.
pub const PAGER_THRESHOLD: usize = 50;

/// Whether human-readable output goes through a pager: only when standard
/// output, input and error are all terminals and more than
/// [`PAGER_THRESHOLD`] findings are shown.
pub fn should_page(stdout_tty: bool, stdin_tty: bool, stderr_tty: bool, displayed: usize) -> (r: bool)
    ensures
        r == (stdout_tty && stdin_tty && stderr_tty && displayed > PAGER_THRESHOLD),
{
    stdout_tty && stdin_tty && stderr_tty && displayed > PAGER_THRESHOLD
}

/// Whether a terminal stream emits colour: always, never, or when it
/// decides for itself (a terminal gets colour, anything else does not).
#[derive(Debug, Clone, Copy, PartialEq, Eq, Structural)]
pub enum ColorMode {
    Always,
    Never,
    Auto,
}

/// The colour mode for the `--color` setting, honouring the `NO_COLOR` and
/// `FORCE_COLOR` environment variables (`no_color`, `force_color`: whether
/// each is set): `auto` turns into never when `NO_COLOR` is set, else into
/// always when `FORCE_COLOR` is set.
pub fn resolve_color(when: ColorWhen, no_color: bool, force_color: bool) -> (r: ColorMode)
    ensures
        r == match when {
            ColorWhen::Always => ColorMode::Always,
            ColorWhen::Never => ColorMode::Never,
            ColorWhen::Auto => if no_color {
                ColorMode::Never
            } else if force_color {
                ColorMode::Always
            } else {
                ColorMode::Auto
            },
        },
{
    match when {
        ColorWhen::Always => ColorMode::Always,
        ColorWhen::Never => ColorMode::Never,
        ColorWhen::Auto => if no_color {
            ColorMode::Never
        } else if force_color {
            ColorMode::Always
        } else {
            ColorMode::Auto
        },
    }
}

/// Whether the formatters style their output under `mode`: unless colour
/// is off for good (the stream then decides whether styles show).
pub fn uses_colour(mode: ColorMode) -> (r: bool)
    ensures
        r == (mode != ColorMode::Never),
{
    match mode {
        ColorMode::Never => false,
        _ => true,
    }
}

// ── Exit code ─────────────────────────────────────────────────────────────────

/// The exit code of a run that found `total` annotations.
pub open spec fn exit_code_spec(total: nat, exit_zero: bool) -> ExitCode {
    if total > 0 {
        ExitCode::Success
    } else {
        ExitCode::NotFound
    }
}

/// The exit code of a run that found `total` annotations:
/// [`ExitCode::Success`] when annotations are found, [`ExitCode::NotFound`]
/// when none are (with or without `--exit-zero`).
pub fn exit_code(total: usize, exit_zero: bool) -> (r: ExitCode)
    ensures
        r == exit_code_spec(total as nat, exit_zero),
{
    if exit_zero || total == 0 {
        if total == 0 {
            ExitCode::NotFound
        } else {
            ExitCode::Success
        }
    } else {
        ExitCode::Success
    }
}

/// A run exits with success exactly when it found annotations, and with
/// "not found" exactly when it found none, with or without `--exit-zero`.
pub proof fn success_exactly_when_found(total: nat, exit_zero: bool)
    ensures
        (exit_code_spec(total, exit_zero) == ExitCode::Success) <==> total > 0,
        (exit_code_spec(total, exit_zero) == ExitCode::NotFound) <==> total == 0,
{
}

/// `--exit-zero` changes nothing: a run exits with the same code with or
/// without it.
pub proof fn exit_zero_changes_nothing(total: nat)
    ensures
        exit_code_spec(total, true) == exit_code_spec(total, false),
{
}

// ── Blame ─────────────────────────────────────────────────────────────────────

/// The files of the findings, each once, in the order they first appear:
/// one `git blame` is run per file.
pub fn blame_files(findings: &[Finding]) -> (r: Vec<String>)
    ensures
        strings_view(r@) == distinct_paths(files_of(finding_views(findings@))),
{
    distinct_files(findings)
}

} // verus!
