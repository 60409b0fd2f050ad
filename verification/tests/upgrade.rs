use std::io::Write;

use flate2::write::GzEncoder;
use flate2::Compression;
use todork::upgrade::{
    archive_format, asset_name_for_platform, extract_binary, extract_from_tarball, extract_from_zip,
    find_asset, is_tar_binary, is_zip_binary,
    missing_asset_message, missing_binary_message, newer_release, release_version, ArchiveFormat,
};

#[test]
fn release_version_drops_leading_vs() {
    assert_eq!(release_version("v1.2.3"), "1.2.3");
    assert_eq!(release_version("vv2"), "2");
    assert_eq!(release_version("1.0"), "1.0");
    assert_eq!(release_version(""), "");
}

#[test]
fn newer_release_compares_with_running_version() {
    assert_eq!(newer_release("v0.1.0", "0.1.0"), None);
    assert_eq!(newer_release("v0.2.0", "0.1.0"), Some("0.2.0".to_string()));
}

#[test]
fn asset_names_per_platform() {
    assert_eq!(
        asset_name_for_platform("1.0.0", "linux", "x86_64"),
        Ok("todork-1.0.0-x86_64-unknown-linux-musl.tar.gz".to_string())
    );
    assert_eq!(
        asset_name_for_platform("1.0.0", "macos", "aarch64"),
        Ok("todork-1.0.0-aarch64-apple-darwin.tar.gz".to_string())
    );
    assert_eq!(
        asset_name_for_platform("1.0.0", "windows", "x86_64"),
        Ok("todork-1.0.0-x86_64-pc-windows-msvc.zip".to_string())
    );
    assert_eq!(
        asset_name_for_platform("1.0.0", "freebsd", "x86_64"),
        Err("unsupported platform: freebsd/x86_64".to_string())
    );
}

#[test]
fn assets_are_found_by_name() {
    let names = vec!["a".to_string(), "b".to_string(), "b".to_string()];
    assert_eq!(find_asset(&names, "b"), Some(1));
    assert_eq!(find_asset(&names, "c"), None);
    assert_eq!(
        missing_asset_message("x.zip"),
        "no release asset found for this platform (x.zip); download manually from https://github.com/tjklint/todork/releases"
    );
}

#[test]
fn archive_formats_by_suffix() {
    assert_eq!(archive_format("a.tar.gz"), Ok(ArchiveFormat::TarGz));
    assert_eq!(archive_format("a.zip"), Ok(ArchiveFormat::Zip));
    assert_eq!(archive_format("a.tar"), Err("unknown archive format: a.tar".to_string()));
    assert_eq!(archive_format("zip"), Err("unknown archive format: zip".to_string()));
}

#[test]
fn binary_entries_by_name() {
    assert!(is_tar_binary("todork"));
    assert!(is_tar_binary("dir/todork"));
    assert!(is_tar_binary("./todork/"));
    assert!(!is_tar_binary("todork.exe"));
    assert!(!is_tar_binary("todork/.."));
    assert!(!is_tar_binary(""));
    assert!(is_zip_binary("todork.exe"));
    assert!(is_zip_binary("todork"));
    assert!(!is_zip_binary("dir/todork"));
    assert_eq!(missing_binary_message(ArchiveFormat::Zip), "todork binary not found in zip");
}

#[test]
fn extracts_the_program_from_a_tarball() {
    let mut builder = tar::Builder::new(GzEncoder::new(Vec::new(), Compression::default()));
    for (path, data) in [("dir/README", &b"read me"[..]), ("dir/todork", &b"\x7fELF program"[..])] {
        let mut header = tar::Header::new_gnu();
        header.set_size(data.len() as u64);
        header.set_mode(0o755);
        header.set_cksum();
        builder.append_data(&mut header, path, data).unwrap();
    }
    let archive = builder.into_inner().unwrap().finish().unwrap();
    assert_eq!(extract_from_tarball(&archive), Ok(b"\x7fELF program".to_vec()));
    assert_eq!(extract_binary(&archive, "todork-1-x.tar.gz"), Ok(b"\x7fELF program".to_vec()));
    assert_eq!(extract_binary(&archive, "todork-1-x.rar"), Err("unknown archive format: todork-1-x.rar".to_string()));
}

#[test]
fn tarball_without_the_program_is_refused() {
    let mut builder = tar::Builder::new(GzEncoder::new(Vec::new(), Compression::default()));
    let mut header = tar::Header::new_gnu();
    header.set_size(1);
    header.set_cksum();
    builder.append_data(&mut header, "other", &b"x"[..]).unwrap();
    let archive = builder.into_inner().unwrap().finish().unwrap();
    assert_eq!(extract_from_tarball(&archive), Err("todork binary not found in tarball".to_string()));
}

#[test]
fn extracts_the_program_from_a_zip() {
    let mut writer = zip::ZipWriter::new(std::io::Cursor::new(Vec::new()));
    let options = zip::write::SimpleFileOptions::default();
    writer.start_file("notes.txt", options).unwrap();
    writer.write_all(b"notes").unwrap();
    writer.start_file("todork.exe", options).unwrap();
    writer.write_all(b"MZ program").unwrap();
    let archive = writer.finish().unwrap().into_inner();
    assert_eq!(extract_from_zip(&archive), Ok(b"MZ program".to_vec()));
    assert_eq!(extract_binary(&archive, "todork-1-x.zip"), Ok(b"MZ program".to_vec()));
    assert_eq!(extract_from_zip(b"not a zip"), Err("failed to open zip archive".to_string()));
}

/// An uncompressed tar archive of `entries`, without its end marker.
fn tar_body(entries: &[(&str, &[u8])]) -> Vec<u8> {
    let mut builder = tar::Builder::new(Vec::new());
    for (path, data) in entries {
        let mut header = tar::Header::new_gnu();
        header.set_size(data.len() as u64);
        header.set_mode(0o755);
        header.set_cksum();
        builder.append_data(&mut header, path, *data).unwrap();
    }
    let mut body = builder.into_inner().unwrap();
    while body.len() >= 512 && body[body.len() - 512..].iter().all(|b| *b == 0) {
        body.truncate(body.len() - 512);
    }
    body
}

fn gzip(bytes: &[u8]) -> Vec<u8> {
    let mut encoder = GzEncoder::new(Vec::new(), Compression::default());
    encoder.write_all(bytes).unwrap();
    encoder.finish().unwrap()
}

#[test]
fn tarball_reading_stops_at_the_program() {
    let mut body = tar_body(&[("todork", &b"program"[..])]);
    body.extend_from_slice(&[b'x'; 512]);
    assert_eq!(extract_from_tarball(&gzip(&body)), Ok(b"program".to_vec()));

    let mut body = vec![b'x'; 512];
    body.extend_from_slice(&tar_body(&[("todork", &b"program"[..])]));
    assert_eq!(extract_from_tarball(&gzip(&body)), Err("corrupt tar entry".to_string()));
}

#[test]
fn tarball_that_is_not_gzip_is_a_corrupt_entry() {
    assert_eq!(extract_from_tarball(b"plain bytes"), Err("corrupt tar entry".to_string()));
    assert_eq!(extract_from_tarball(&gzip(b"")), Err("todork binary not found in tarball".to_string()));
}

/// A zip archive of `entries` with the local header of entry `broken`
/// spoiled.
fn zip_with_broken_entry(entries: &[(&str, &[u8])], broken: usize) -> Vec<u8> {
    let mut writer = zip::ZipWriter::new(std::io::Cursor::new(Vec::new()));
    let options = zip::write::SimpleFileOptions::default();
    for (name, data) in entries {
        writer.start_file(*name, options).unwrap();
        writer.write_all(data).unwrap();
    }
    let mut bytes = writer.finish().unwrap().into_inner();
    let starts: Vec<usize> = (0..bytes.len() - 3).filter(|i| bytes[*i..*i + 4] == *b"PK\x03\x04").collect();
    bytes[starts[broken] + 3] = 0x05;
    bytes
}

#[test]
fn zip_reading_stops_at_the_program() {
    let archive = zip_with_broken_entry(&[("todork", &b"program"[..]), ("other", &b"data"[..])], 1);
    assert_eq!(extract_from_zip(&archive), Ok(b"program".to_vec()));

    let archive = zip_with_broken_entry(&[("other", &b"data"[..]), ("todork", &b"program"[..])], 0);
    assert_eq!(extract_from_zip(&archive), Err("corrupt zip entry".to_string()));
}
