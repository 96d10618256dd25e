use std::io::Write;

use engine_setup::archive::{
    extract_tar_gz_binary, extract_zip_binary, locate_tar_binary, locate_zip_binary, ArchiveEntry,
};

fn zip_bytes(entries: &[(&str, &[u8])]) -> Vec<u8> {
    let mut w = zip::ZipWriter::new(std::io::Cursor::new(Vec::new()));
    let options: zip::write::SimpleFileOptions = Default::default();
    for (name, data) in entries {
        w.start_file(*name, options).unwrap();
        w.write_all(data).unwrap();
    }
    w.finish().unwrap().into_inner()
}

fn tar_gz_bytes(entries: &[(&str, &[u8])]) -> Vec<u8> {
    let gz = flate2::write::GzEncoder::new(Vec::new(), flate2::Compression::default());
    let mut b = tar::Builder::new(gz);
    for (name, data) in entries {
        let mut header = tar::Header::new_gnu();
        header.set_size(data.len() as u64);
        header.set_mode(0o644);
        header.set_cksum();
        b.append_data(&mut header, *name, *data).unwrap();
    }
    b.into_inner().unwrap().finish().unwrap()
}

fn entry(path: &[u8], data: &[u8]) -> ArchiveEntry {
    ArchiveEntry { path: path.to_vec(), data: data.to_vec(), unix_mode: None }
}

#[test]
fn zip_single_matching_entry_extracts_byte_identical() {
    let payload = b"\x7fELF fake binary contents".as_slice();
    let bytes = zip_bytes(&[("uv-x86_64-pc-windows-msvc/uv.exe", payload)]);
    let found = extract_zip_binary(&bytes).unwrap();
    assert_eq!(found.as_deref(), Some(payload));
}

#[test]
fn tar_gz_single_matching_entry_extracts_byte_identical() {
    let payload = b"#!/bin/sh\necho uv\n".as_slice();
    let bytes = tar_gz_bytes(&[("uv-x86_64-unknown-linux-gnu/uv", payload)]);
    let found = extract_tar_gz_binary(&bytes).unwrap();
    assert_eq!(found.as_deref(), Some(payload));
}

#[test]
fn tar_gz_alias_binary_is_not_mistaken_for_the_tool() {
    let alias = b"alias".as_slice();
    let real = b"real".as_slice();
    let bytes = tar_gz_bytes(&[
        ("uv-x86_64-unknown-linux-gnu/uvx", alias),
        ("uv-x86_64-unknown-linux-gnu/uv", real),
    ]);
    let found = extract_tar_gz_binary(&bytes).unwrap();
    assert_eq!(found.as_deref(), Some(real));
}

#[test]
fn zip_without_matching_entry_yields_nothing() {
    let bytes = zip_bytes(&[("README.md", b"hello".as_slice())]);
    let found = extract_zip_binary(&bytes).unwrap();
    assert!(found.is_none());
}

#[test]
fn malformed_zip_is_an_error() {
    match extract_zip_binary(b"this is not a zip archive") {
        Err(m) => assert!(m.starts_with("Failed to read zip ")),
        Ok(_) => panic!("garbage must not decode"),
    }
}

#[test]
fn malformed_tar_gz_is_an_error() {
    match extract_tar_gz_binary(b"this is not a tar.gz archive") {
        Err(m) => assert!(m.starts_with("Failed to read tar ")),
        Ok(_) => panic!("garbage must not decode"),
    }
}

#[test]
fn locate_zip_takes_first_match_in_archive_order() {
    let entries = vec![
        entry(b"docs/readme.txt", b"docs"),
        entry(b"a/uv.exe", b"first"),
        entry(b"b/uv.exe", b"second"),
    ];
    let found = locate_zip_binary(&entries);
    assert_eq!(found.as_deref(), Some(b"first".as_slice()));
}

#[test]
fn locate_tar_requires_separator_before_name() {
    let entries = vec![entry(b"uv", b"bare")];
    assert!(locate_tar_binary(&entries).is_none());
    let entries = vec![entry(b"dist/uv", b"nested")];
    assert_eq!(locate_tar_binary(&entries).as_deref(), Some(b"nested".as_slice()));
}
