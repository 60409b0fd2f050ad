//! Self-upgrade decisions: whether a release is newer than the running
//! version, which of its assets fits this platform, and which file of the
//! downloaded archive is the program.
//!
//! Archives are read entry by entry through flate2, tar and zip, up to the
//! program.  Talking to GitHub and replacing the executable are left to the
//! caller.

use vstd::prelude::*;

use std::io::{Cursor, Read};

use flate2::read::GzDecoder;

use crate::order::{components_of, part_views, path_components};
use crate::text::{chars_of, owned, push_str, str_eq, string_of};

verus! {

/// The version of this program.
pub const VERSION: &'static str = "0.1.0";

/// The GitHub repository releases are published in.
pub const REPO: &'static str = "tjklint/todork";

/// `s` without its leading `v`s.
pub open spec fn without_v(s: Seq<char>) -> Seq<char>
    decreases s.len(),
{
    if s.len() > 0 && s[0] == 'v' {
        without_v(s.drop_first())
    } else {
        s
    }
}

/// The version a release tag names: the tag without its leading `v`s.
pub fn release_version(tag_name: &str) -> (r: String)
    ensures
        r@ == without_v(tag_name@),
{
    let cs = chars_of(tag_name);
    let mut i: usize = 0;
    assert(cs@.skip(0) =~= cs@);
    while i < cs.len() && cs[i] == 'v'
        invariant
            0 <= i <= cs@.len(),
            cs@ == tag_name@,
            without_v(tag_name@) == without_v(cs@.skip(i as int)),
        decreases cs@.len() - i,
    {
        assert(cs@.skip(i as int)[0] == cs@[i as int]);
        assert(cs@.skip(i as int).drop_first() =~= cs@.skip(i + 1));
        i += 1;
    }
    if i < cs.len() {
        assert(cs@.skip(i as int)[0] == cs@[i as int]);
    }
    let r = string_of(&cs, i, cs.len());
    assert(cs@.subrange(i as int, cs@.len() as int) =~= cs@.skip(i as int));
    r
}

/// The version a release offers when it differs from `current`, the
/// running version; `None` when already up to date.
pub fn newer_release(tag_name: &str, current: &str) -> (r: Option<String>)
    ensures
        match r {
            Some(v) => v@ == without_v(tag_name@) && v@ != current@,
            None => without_v(tag_name@) == current@,
        },
{
    let latest = release_version(tag_name);
    if str_eq(latest.as_str(), current) {
        None
    } else {
        Some(latest)
    }
}

/// The target triple of the release built for an operating system and an
/// architecture, as Rust names them.
pub open spec fn target_of(os: Seq<char>, arch: Seq<char>) -> Option<Seq<char>> {
    if os == "linux"@ && arch == "x86_64"@ {
        Some("x86_64-unknown-linux-musl"@)
    } else if os == "linux"@ && arch == "aarch64"@ {
        Some("aarch64-unknown-linux-musl"@)
    } else if os == "macos"@ && arch == "x86_64"@ {
        Some("x86_64-apple-darwin"@)
    } else if os == "macos"@ && arch == "aarch64"@ {
        Some("aarch64-apple-darwin"@)
    } else if os == "windows"@ && arch == "x86_64"@ {
        Some("x86_64-pc-windows-msvc"@)
    } else {
        None
    }
}

/// The archive extension of releases for an operating system.
pub open spec fn extension_of(os: Seq<char>) -> Seq<char> {
    if os == "windows"@ {
        "zip"@
    } else {
        "tar.gz"@
    }
}

fn target_exec(os: &str, arch: &str) -> (r: Option<&'static str>)
    ensures
        match target_of(os@, arch@) {
            Some(t) => r matches Some(x) && x@ == t,
            None => r is None,
        },
{
    if str_eq(os, "linux") && str_eq(arch, "x86_64") {
        Some("x86_64-unknown-linux-musl")
    } else if str_eq(os, "linux") && str_eq(arch, "aarch64") {
        Some("aarch64-unknown-linux-musl")
    } else if str_eq(os, "macos") && str_eq(arch, "x86_64") {
        Some("x86_64-apple-darwin")
    } else if str_eq(os, "macos") && str_eq(arch, "aarch64") {
        Some("aarch64-apple-darwin")
    } else if str_eq(os, "windows") && str_eq(arch, "x86_64") {
        Some("x86_64-pc-windows-msvc")
    } else {
        None
    }
}

/// The name of the release asset of `version` for the operating system
/// `os` and the architecture `arch`, or the message that the platform is
/// not supported.
pub fn asset_name_for_platform(version: &str, os: &str, arch: &str) -> (r: Result<String, String>)
    ensures
        match target_of(os@, arch@) {
            Some(t) => r matches Ok(name) && name@ == "todork-"@ + version@ + "-"@ + t + "."@
                + extension_of(os@),
            None => r matches Err(m) && m@ == "unsupported platform: "@ + os@ + "/"@ + arch@,
        },
{
    match target_exec(os, arch) {
        Some(target) => {
            let ext = if str_eq(os, "windows") {
                "zip"
            } else {
                "tar.gz"
            };
            let mut name = owned("todork-");
            push_str(&mut name, version);
            push_str(&mut name, "-");
            push_str(&mut name, target);
            push_str(&mut name, ".");
            push_str(&mut name, ext);
            Ok(name)
        },
        None => {
            let mut m = owned("unsupported platform: ");
            push_str(&mut m, os);
            push_str(&mut m, "/");
            push_str(&mut m, arch);
            Err(m)
        },
    }
}

/// The position of the first asset named `wanted`.
pub fn find_asset(names: &[String], wanted: &str) -> (r: Option<usize>)
    ensures
        match r {
            Some(i) => i < names@.len() && names@[i as int]@ == wanted@ && forall|k: int| 0 <= k < i ==> names@[k]@ != wanted@,
            None => forall|k: int| 0 <= k < names@.len() ==> names@[k]@ != wanted@,
        },
{
    let mut i: usize = 0;
    while i < names.len()
        invariant
            0 <= i <= names@.len(),
            forall|k: int| 0 <= k < i ==> names@[k]@ != wanted@,
        decreases names@.len() - i,
    {
        if str_eq(names[i].as_str(), wanted) {
            return Some(i);
        }
        i += 1;
    }
    None
}

/// The message when a release has no asset named `asset_name`.
pub fn missing_asset_message(asset_name: &str) -> (r: String)
    ensures
        r@ == "no release asset found for this platform ("@ + asset_name@
            + "); download manually from https://github.com/tjklint/todork/releases"@,
{
    let mut m = owned("no release asset found for this platform (");
    push_str(&mut m, asset_name);
    push_str(&mut m, "); download manually from https://github.com/tjklint/todork/releases");
    m
}

/// How a release asset is packed.
#[derive(Debug, Clone, Copy, PartialEq, Eq, Structural)]
pub enum ArchiveFormat {
    /// A gzip-compressed tar archive.
    TarGz,
    /// A zip archive.
    Zip,
}

/// Whether `s` ends with `suffix`.
pub open spec fn ends_with(s: Seq<char>, suffix: Seq<char>) -> bool {
    s.len() >= suffix.len() && s.subrange(s.len() - suffix.len(), s.len() as int) == suffix
}

fn ends_with_exec(s: &str, suffix: &str) -> (r: bool)
    ensures
        r == ends_with(s@, suffix@),
{
    let cs = chars_of(s);
    let ss = chars_of(suffix);
    if cs.len() < ss.len() {
        return false;
    }
    let tail = string_of(&cs, cs.len() - ss.len(), cs.len());
    str_eq(tail.as_str(), suffix)
}

/// How the asset `asset_name` is packed, told by its name's ending, or the
/// message that the format is unknown.
pub fn archive_format(asset_name: &str) -> (r: Result<ArchiveFormat, String>)
    ensures
        ends_with(asset_name@, ".tar.gz"@) ==> r == Ok::<ArchiveFormat, String>(ArchiveFormat::TarGz),
        !ends_with(asset_name@, ".tar.gz"@) && ends_with(asset_name@, ".zip"@) ==> r == Ok::<ArchiveFormat, String>(ArchiveFormat::Zip),
        !ends_with(asset_name@, ".tar.gz"@) && !ends_with(asset_name@, ".zip"@) ==> (r matches Err(m)
            && m@ == "unknown archive format: "@ + asset_name@),
{
    if ends_with_exec(asset_name, ".tar.gz") {
        Ok(ArchiveFormat::TarGz)
    } else if ends_with_exec(asset_name, ".zip") {
        Ok(ArchiveFormat::Zip)
    } else {
        let mut m = owned("unknown archive format: ");
        push_str(&mut m, asset_name);
        Err(m)
    }
}

/// The bytes of the name `todork`.
pub open spec fn program_name_bytes() -> Seq<u8> {
    seq![116u8, 111u8, 100u8, 111u8, 114u8, 107u8]
}

/// Whether a path whose components are `parts` names the program: its last
/// component, the one `Path::file_name` gives, is the name `todork`.
pub open spec fn names_program(parts: Seq<(u8, Seq<u8>)>) -> bool {
    parts.len() > 0 && parts.last() == (4u8, program_name_bytes())
}

fn is_program_bytes(b: &Vec<u8>) -> (r: bool)
    ensures
        r == (b@ == program_name_bytes()),
{
    let ghost want = program_name_bytes();
    if b.len() != 6 {
        return false;
    }
    let r = b[0] == 116u8 && b[1] == 111u8 && b[2] == 100u8 && b[3] == 111u8 && b[4] == 114u8
        && b[5] == 107u8;
    assert(r ==> b@ =~= want);
    assert(b@ == want ==> b@[0] == want[0] && b@[1] == want[1] && b@[2] == want[2] && b@[3]
        == want[3] && b@[4] == want[4] && b@[5] == want[5]);
    r
}

/// Whether the tar entry with path `path` is the program: the file name
/// the path ends in is `todork`.
pub fn is_tar_binary(path: &str) -> (r: bool)
    ensures
        r == names_program(path_components(path@)),
{
    let parts = components_of(path);
    let n = parts.len();
    if n == 0 {
        return false;
    }
    let ghost views = part_views(parts@);
    assert(views.last() == (parts@[n - 1].0, parts@[n - 1].1@));
    parts[n - 1].0 == 4u8 && is_program_bytes(&parts[n - 1].1)
}

/// Whether the zip entry named `name` is the program.
pub fn is_zip_binary(name: &str) -> (r: bool)
    ensures
        r == (name@ == "todork.exe"@ || name@ == "todork"@),
{
    str_eq(name, "todork.exe") || str_eq(name, "todork")
}

/// The message when an archive holds no program.
pub fn missing_binary_message(format: ArchiveFormat) -> (r: &'static str)
    ensures
        r@ == match format {
            ArchiveFormat::TarGz => "todork binary not found in tarball"@,
            ArchiveFormat::Zip => "todork binary not found in zip"@,
        },
{
    match format {
        ArchiveFormat::TarGz => "todork binary not found in tarball",
        ArchiveFormat::Zip => "todork binary not found in zip",
    }
}

/// The view of an extracted program or of the error.
pub open spec fn bytes_or_message(r: Result<Vec<u8>, String>) -> Result<Seq<u8>, Seq<char>> {
    match r {
        Ok(v) => Ok(v@),
        Err(m) => Err(m@),
    }
}

// ── Zip archives ──────────────────────────────────────────────────────────────

#[verifier::external_type_specification]
#[verifier::external_body]
#[verifier::reject_recursive_types(T)]
pub struct ExCursor<T>(std::io::Cursor<T>);

#[verifier::external_type_specification]
#[verifier::external_body]
#[verifier::reject_recursive_types(R)]
pub struct ExZipArchive<R>(zip::ZipArchive<R>);

/// An opened entry of a zip archive over `'b` bytes, borrowing the archive
/// for `'a`: zip's `ZipFile`.  (Its type is bound by `std::io::Read`,
/// which Verus does not know, so it is held here rather than declared.)
#[verifier::external_body]
pub struct ZipEntry<'a, 'b> {
    file: zip::read::ZipFile<'a, Cursor<&'b [u8]>>,
}

/// Whether `ZipArchive::new` reads the archive `data`.
pub uninterp spec fn zip_opens(data: Seq<u8>) -> bool;

/// The bytes a zip archive reads from.
pub uninterp spec fn zip_archive_bytes(a: zip::ZipArchive<Cursor<&[u8]>>) -> Seq<u8>;

/// The number of entries `ZipArchive::len` counts in the archive `data`.
pub uninterp spec fn zip_len(data: Seq<u8>) -> nat;

/// Whether `ZipArchive::by_index` opens entry `i` of the archive `data`.
pub uninterp spec fn zip_entry_opens(data: Seq<u8>, i: nat) -> bool;

/// The archive bytes and the index an opened zip entry comes from.
pub uninterp spec fn zip_file_origin(f: ZipEntry<'_, '_>) -> (Seq<u8>, nat);

/// The name `ZipFile::name` gives entry `i` of the archive `data`.
pub uninterp spec fn zip_entry_name(data: Seq<u8>, i: nat) -> Seq<char>;

/// What reading entry `i` of the archive `data` to its end gives: its
/// bytes, or the message of the read error.
pub uninterp spec fn zip_entry_contents(data: Seq<u8>, i: nat) -> Result<Seq<u8>, Seq<char>>;

/// Calls `ZipArchive::new` on a cursor over `data`: an archive exactly when
/// the named [`zip_opens`] holds of `data`, and it reads from `data`.
#[verifier::external_body]
fn zip_open(data: &[u8]) -> (r: Option<zip::ZipArchive<Cursor<&[u8]>>>)
    ensures
        r is Some <==> zip_opens(data@),
        r matches Some(a) ==> zip_archive_bytes(a) == data@,
{
    zip::ZipArchive::new(Cursor::new(data)).ok()
}

/// Calls `ZipArchive::len`: the named [`zip_len`] of the archive's bytes.
#[verifier::external_body]
fn zip_count(a: &zip::ZipArchive<Cursor<&[u8]>>) -> (r: usize)
    ensures
        r == zip_len(zip_archive_bytes(*a)),
{
    a.len()
}

/// Calls `ZipArchive::by_index`: the entry exactly when the named
/// [`zip_entry_opens`] holds of the archive's bytes and `i`, and it comes
/// from them.  The archive keeps reading from the same bytes.
#[verifier::external_body]
fn zip_by_index<'a, 'b>(a: &'a mut zip::ZipArchive<Cursor<&'b [u8]>>, i: usize) -> (r: Option<
    ZipEntry<'a, 'b>,
>)
    ensures
        zip_archive_bytes(*final(a)) == zip_archive_bytes(*old(a)),
        r is Some <==> zip_entry_opens(zip_archive_bytes(*old(a)), i as nat),
        r matches Some(f) ==> zip_file_origin(f) == (zip_archive_bytes(*old(a)), i as nat),
{
    a.by_index(i).ok().map(|file| ZipEntry { file })
}

/// Calls `ZipFile::name`: the named [`zip_entry_name`] of where the entry
/// comes from.
#[verifier::external_body]
fn zip_name(f: &ZipEntry<'_, '_>) -> (r: String)
    ensures
        r@ == zip_entry_name(zip_file_origin(*f).0, zip_file_origin(*f).1),
{
    f.file.name().to_string()
}

/// Reads a zip entry to its end with `Read::read_to_end`, consuming it, so
/// that no entry is read twice: the named [`zip_entry_contents`] of where it
/// comes from; a read error is handed back as its message.
#[verifier::external_body]
fn zip_read_all(f: ZipEntry<'_, '_>) -> (r: Result<Vec<u8>, String>)
    ensures
        bytes_or_message(r) == zip_entry_contents(zip_file_origin(f).0, zip_file_origin(f).1),
{
    let mut f = f;
    let mut buf = Vec::new();
    match f.file.read_to_end(&mut buf) {
        Ok(_) => Ok(buf),
        Err(e) => Err(e.to_string()),
    }
}

/// What the zip archive `data` gives from entry `i` on: the bytes of the
/// first entry named `todork.exe` or `todork`, or the failure to open or
/// read an entry before it, or that there is none.
pub open spec fn zip_program_from(data: Seq<u8>, i: nat) -> Result<Seq<u8>, Seq<char>>
    decreases zip_len(data) - i,
{
    if i >= zip_len(data) {
        Err("todork binary not found in zip"@)
    } else if !zip_entry_opens(data, i) {
        Err("corrupt zip entry"@)
    } else if zip_entry_name(data, i) == "todork.exe"@ || zip_entry_name(data, i) == "todork"@ {
        zip_entry_contents(data, i)
    } else {
        zip_program_from(data, i + 1)
    }
}

/// The program in the zip archive `data`, or why it cannot be had.
pub open spec fn zip_program(data: Seq<u8>) -> Result<Seq<u8>, Seq<char>> {
    if !zip_opens(data) {
        Err("failed to open zip archive"@)
    } else {
        zip_program_from(data, 0)
    }
}

/// The program in the zip archive `data`: the bytes of its first entry
/// named `todork.exe` or `todork`.  The entries after it are not read.
pub fn extract_from_zip(data: &[u8]) -> (r: Result<Vec<u8>, String>)
    ensures
        bytes_or_message(r) == zip_program(data@),
{
    let mut archive = match zip_open(data) {
        Some(a) => a,
        None => return Err(owned("failed to open zip archive")),
    };
    let n = zip_count(&archive);
    let mut i: usize = 0;
    while i < n
        invariant
            0 <= i <= n,
            n == zip_len(data@),
            zip_archive_bytes(archive) == data@,
            zip_opens(data@),
            zip_program(data@) == zip_program_from(data@, i as nat),
        decreases n - i,
    {
        let file = match zip_by_index(&mut archive, i) {
            Some(f) => f,
            None => return Err(owned("corrupt zip entry")),
        };
        let name = zip_name(&file);
        if is_zip_binary(name.as_str()) {
            return zip_read_all(file);
        }
        i += 1;
    }
    Err(owned(missing_binary_message(ArchiveFormat::Zip)))
}

// ── Tar archives ──────────────────────────────────────────────────────────────

#[verifier::external_type_specification]
#[verifier::external_body]
#[verifier::reject_recursive_types(R)]
pub struct ExGzDecoder<R>(flate2::read::GzDecoder<R>);

// tar's `Archive`, `Entries` and `Entry` are bound by `std::io::Read`,
// which Verus does not know, so each is held in a struct of its own rather
// than declared.

/// A tar archive read through a gzip decoder over `'b` bytes: tar's
/// `Archive`.
#[verifier::external_body]
pub struct TarArchive<'b> {
    archive: tar::Archive<GzDecoder<&'b [u8]>>,
}

/// An iterator over the entries of a [`TarArchive`] borrowed for `'a`:
/// tar's `Entries`.
#[verifier::external_body]
pub struct TarEntries<'a, 'b> {
    entries: tar::Entries<'a, GzDecoder<&'b [u8]>>,
}

/// An entry handed out by [`TarEntries`]: tar's `Entry`.  It keeps the
/// iterator borrowed for `'e`, so that the walk cannot move on while it is
/// held.
#[verifier::external_body]
pub struct TarEntry<'e, 'a, 'b> {
    entry: tar::Entry<'a, GzDecoder<&'b [u8]>>,
    walk: std::marker::PhantomData<&'e ()>,
}

/// The compressed bytes a gzip decoder was made to read.
pub uninterp spec fn gz_bytes(d: GzDecoder<&[u8]>) -> Seq<u8>;

/// The compressed bytes under a tar archive read through a gzip decoder.
pub uninterp spec fn tar_bytes(a: TarArchive<'_>) -> Seq<u8>;

/// Whether nothing has been read from a tar archive yet.
pub uninterp spec fn tar_unread(a: TarArchive<'_>) -> bool;

/// The compressed bytes an iterator over tar entries reads.
pub uninterp spec fn tar_walk_bytes(e: TarEntries<'_, '_>) -> Seq<u8>;

/// How many times `Entries::next` has been called on an iterator over tar
/// entries.
pub uninterp spec fn tar_walk_index(e: TarEntries<'_, '_>) -> nat;

/// How many items `Entries::next` hands out for the gzip-compressed tar
/// archive `data` before it ends: its entries, and a last item that is an
/// error when reading fails.
pub uninterp spec fn tar_walk_len(data: Seq<u8>) -> nat;

/// Whether item `k` of the walk over the gzip-compressed tar archive
/// `data` is an entry rather than an error.
pub uninterp spec fn tar_item_ok(data: Seq<u8>, k: nat) -> bool;

/// The compressed archive bytes and the position in the walk a tar entry
/// comes from.
pub uninterp spec fn tar_entry_origin(e: TarEntry<'_, '_, '_>) -> (Seq<u8>, nat);

/// The path `Entry::path` gives entry `k` of the gzip-compressed tar
/// archive `data`, as text, or `None` when it fails.
pub uninterp spec fn tar_entry_path(data: Seq<u8>, k: nat) -> Option<Seq<char>>;

/// What reading entry `k` of the gzip-compressed tar archive `data` to its
/// end gives: its bytes, or the message of the read error.
pub uninterp spec fn tar_entry_contents(data: Seq<u8>, k: nat) -> Result<Seq<u8>, Seq<char>>;

/// Calls `GzDecoder::new` on `data`: a decoder that reads `data`.
#[verifier::external_body]
fn gz_decoder(data: &[u8]) -> (r: GzDecoder<&[u8]>)
    ensures
        gz_bytes(r) == data@,
{
    GzDecoder::new(data)
}

/// Calls `Archive::new` on a gzip decoder: an archive over the decoder's
/// bytes from which nothing has been read.
#[verifier::external_body]
fn tar_archive<'a>(d: GzDecoder<&'a [u8]>) -> (r: TarArchive<'a>)
    ensures
        tar_bytes(r) == gz_bytes(d),
        tar_unread(r),
{
    TarArchive { archive: tar::Archive::new(d) }
}

/// Calls `Archive::entries`: on an archive from which nothing has been
/// read it succeeds, and the iterator walks the archive's bytes from the
/// start.
#[verifier::external_body]
fn tar_entries<'a, 'b>(a: &'a mut TarArchive<'b>) -> (r: Option<
    TarEntries<'a, 'b>,
>)
    ensures
        tar_unread(*old(a)) ==> r is Some,
        r matches Some(e) ==> tar_walk_bytes(e) == tar_bytes(*old(a)) && tar_walk_index(e) == 0,
{
    a.archive.entries().ok().map(|entries| TarEntries { entries })
}

/// Calls `Entries::next`: the next item of the walk over the iterator's
/// bytes (the named [`tar_walk_len`] and [`tar_item_ok`]), an entry coming
/// from that place or an error; nothing once the walk is over.
#[verifier::external_body]
fn tar_next<'e, 'a, 'b>(e: &'e mut TarEntries<'a, 'b>) -> (r: Option<
    Option<TarEntry<'e, 'a, 'b>>,
>)
    ensures
        tar_walk_bytes(*final(e)) == tar_walk_bytes(*old(e)),
        tar_walk_index(*final(e)) == tar_walk_index(*old(e)) + 1,
        r is None <==> tar_walk_index(*old(e)) >= tar_walk_len(tar_walk_bytes(*old(e))),
        r matches Some(x) ==> (x is Some <==> tar_item_ok(tar_walk_bytes(*old(e)), tar_walk_index(*old(e)))),
        r matches Some(Some(en)) ==> tar_entry_origin(en) == (tar_walk_bytes(*old(e)), tar_walk_index(*old(e))),
{
    e.entries.next().map(|item| item.ok().map(|entry| TarEntry { entry, walk: std::marker::PhantomData }))
}

/// Calls `Entry::path` and hands the path out as text (`to_string_lossy`):
/// the named [`tar_entry_path`] of where the entry comes from.
#[verifier::external_body]
fn tar_path(en: &TarEntry<'_, '_, '_>) -> (r: Option<String>)
    ensures
        match r {
            Some(p) => tar_entry_path(tar_entry_origin(*en).0, tar_entry_origin(*en).1) == Some(p@),
            None => tar_entry_path(tar_entry_origin(*en).0, tar_entry_origin(*en).1) is None,
        },
{
    en.entry.path().ok().map(|p| p.to_string_lossy().into_owned())
}

/// Reads a tar entry to its end with `Read::read_to_end`, consuming it, so
/// that no entry is read twice: the named [`tar_entry_contents`] of where it
/// comes from; a read error is handed back as its message.  (An entry
/// borrows its iterator, so none is read after the walk has moved on.)
#[verifier::external_body]
fn tar_read_all(en: TarEntry<'_, '_, '_>) -> (r: Result<Vec<u8>, String>)
    ensures
        bytes_or_message(r) == tar_entry_contents(tar_entry_origin(en).0, tar_entry_origin(en).1),
{
    let mut en = en;
    let mut buf = Vec::new();
    match en.entry.read_to_end(&mut buf) {
        Ok(_) => Ok(buf),
        Err(e) => Err(e.to_string()),
    }
}

/// What the gzip-compressed tar archive `data` gives from item `k` of its
/// walk on: the bytes of the first entry whose file name is `todork`, or
/// the failure to read an entry or its path before it, or that there is
/// none.
pub open spec fn tarball_program_from(data: Seq<u8>, k: nat) -> Result<Seq<u8>, Seq<char>>
    decreases tar_walk_len(data) - k,
{
    if k >= tar_walk_len(data) {
        Err("todork binary not found in tarball"@)
    } else if !tar_item_ok(data, k) {
        Err("corrupt tar entry"@)
    } else {
        match tar_entry_path(data, k) {
            None => Err("invalid path in archive"@),
            Some(p) => if names_program(path_components(p)) {
                tar_entry_contents(data, k)
            } else {
                tarball_program_from(data, k + 1)
            },
        }
    }
}

/// The program in the gzip-compressed tar archive `data`, or why it cannot
/// be had.
pub open spec fn tarball_program(data: Seq<u8>) -> Result<Seq<u8>, Seq<char>> {
    tarball_program_from(data, 0)
}

/// The program in the gzip-compressed tar archive `data`: the bytes of its
/// first entry whose file name is `todork`.  The entries after it are not
/// read.  (Listing the entries of an archive nothing was read from cannot
/// fail, so "failed to read tar archive" never comes.)
pub fn extract_from_tarball(data: &[u8]) -> (r: Result<Vec<u8>, String>)
    ensures
        bytes_or_message(r) == tarball_program(data@),
{
    let mut archive = tar_archive(gz_decoder(data));
    let mut entries = match tar_entries(&mut archive) {
        Some(e) => e,
        None => return Err(owned("failed to read tar archive")),
    };
    let ghost len = tar_walk_len(data@);
    loop
        invariant
            tar_walk_bytes(entries) == data@,
            tar_walk_index(entries) <= len,
            len == tar_walk_len(data@),
            tarball_program(data@) == tarball_program_from(data@, tar_walk_index(entries)),
        decreases len - tar_walk_index(entries),
    {
        let ghost k = tar_walk_index(entries);
        let entry = match tar_next(&mut entries) {
            None => return Err(owned(missing_binary_message(ArchiveFormat::TarGz))),
            Some(None) => return Err(owned("corrupt tar entry")),
            Some(Some(en)) => en,
        };
        let path = match tar_path(&entry) {
            Some(p) => p,
            None => return Err(owned("invalid path in archive")),
        };
        if is_tar_binary(path.as_str()) {
            return tar_read_all(entry);
        }
        assert(tarball_program_from(data@, k) == tarball_program_from(data@, k + 1));
    }
}

/// The program in the downloaded asset `asset_name` with contents `data`,
/// unpacked as the asset's name says it is packed.
pub fn extract_binary(data: &[u8], asset_name: &str) -> (r: Result<Vec<u8>, String>)
    ensures
        ends_with(asset_name@, ".tar.gz"@) ==> bytes_or_message(r) == tarball_program(data@),
        !ends_with(asset_name@, ".tar.gz"@) && ends_with(asset_name@, ".zip"@) ==> bytes_or_message(r)
            == zip_program(data@),
        !ends_with(asset_name@, ".tar.gz"@) && !ends_with(asset_name@, ".zip"@) ==> (r matches Err(m)
            && m@ == "unknown archive format: "@ + asset_name@),
{
    match archive_format(asset_name) {
        Ok(ArchiveFormat::TarGz) => extract_from_tarball(data),
        Ok(ArchiveFormat::Zip) => extract_from_zip(data),
        Err(m) => Err(m),
    }
}

} // verus!
