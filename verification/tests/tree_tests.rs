use std::io::Write;

use engine_setup::archive::ArchiveEntry;
use engine_setup::tree::{plan_repo_extract, plan_tree_extract, TreeAction};

fn entry(path: &[u8], data: &[u8]) -> ArchiveEntry {
    ArchiveEntry { path: path.to_vec(), data: data.to_vec(), unix_mode: None }
}

fn action_path(a: &TreeAction) -> &Vec<Vec<u8>> {
    match a {
        TreeAction::MakeDir { path } => path,
        TreeAction::WriteFile { path, .. } => path,
    }
}

#[test]
fn strips_single_top_level_wrapper_directory() {
    let entries = vec![
        entry(b"root/", b""),
        entry(b"root/pyproject.toml", b"[project]"),
        entry(b"root/sub/", b""),
        entry(b"root/sub/file.txt", b"content"),
    ];
    let plan = plan_tree_extract(&entries);
    assert_eq!(plan.len(), 3);
    match &plan[0] {
        TreeAction::WriteFile { path, data, .. } => {
            assert_eq!(path, &vec![b"pyproject.toml".to_vec()]);
            assert_eq!(data, b"[project]");
        },
        _ => panic!("expected a file write"),
    }
    match &plan[1] {
        TreeAction::MakeDir { path } => assert_eq!(path, &vec![b"sub".to_vec()]),
        _ => panic!("expected a directory"),
    }
    match &plan[2] {
        TreeAction::WriteFile { path, data, .. } => {
            assert_eq!(path, &vec![b"sub".to_vec(), b"file.txt".to_vec()]);
            assert_eq!(data, b"content");
        },
        _ => panic!("expected a file write"),
    }
    for a in &plan {
        assert_ne!(action_path(a)[0], b"root".to_vec());
    }
}

#[test]
fn traversal_entries_are_skipped() {
    let entries = vec![
        entry(b"../evil.txt", b"evil"),
        entry(b"root/../../evil.txt", b"evil"),
        entry(b"root/sub/../../../evil.txt", b"evil"),
        entry(b"/etc/passwd", b"evil"),
    ];
    let plan = plan_tree_extract(&entries);
    assert!(plan.is_empty());
}

#[test]
fn windows_separator_traversal_entries_are_skipped() {
    let entries = vec![
        entry(b"root/..\\evil.txt", b"evil"),
        entry(b"root/sub\\..\\..\\evil.txt", b"evil"),
        entry(b"root/C:\\evil.txt", b"evil"),
        entry(b"root/C:evil.txt", b"evil"),
        entry(b"..\\evil.txt", b"evil"),
    ];
    let plan = plan_tree_extract(&entries);
    assert!(plan.is_empty());
}

#[test]
fn every_planned_path_stays_under_the_destination() {
    let entries = vec![
        entry(b"root/a/../b.txt", b"x"),
        entry(b"root//twice.txt", b"y"),
        entry(b"root/./dot.txt", b"z"),
        entry(b"root/ok/deep/file.bin", b"w"),
    ];
    let plan = plan_tree_extract(&entries);
    for a in &plan {
        let path = action_path(a);
        assert!(!path.is_empty());
        for comp in path {
            assert!(!comp.is_empty());
            assert_ne!(comp, &b"..".to_vec());
            assert_ne!(comp, &b".".to_vec());
        }
    }
    // the traversal entry was dropped, the normalized ones kept
    assert_eq!(plan.len(), 3);
}

#[test]
fn single_component_entries_are_skipped() {
    let entries = vec![entry(b"root/", b""), entry(b"root", b"data")];
    let plan = plan_tree_extract(&entries);
    assert!(plan.is_empty());
}

#[test]
fn plan_from_zip_snapshot_bytes() {
    let mut w = zip::ZipWriter::new(std::io::Cursor::new(Vec::new()));
    let options: zip::write::SimpleFileOptions = Default::default();
    w.start_file("world_engine-biome-stable/pyproject.toml", options).unwrap();
    w.write_all(b"[project]\nname = \"engine\"\n").unwrap();
    w.start_file("world_engine-biome-stable/sub/file.txt", options).unwrap();
    w.write_all(b"hello").unwrap();
    let bytes = w.finish().unwrap().into_inner();

    let plan = plan_repo_extract(&bytes).unwrap();
    assert_eq!(plan.len(), 2);
    match &plan[0] {
        TreeAction::WriteFile { path, data, .. } => {
            assert_eq!(path, &vec![b"pyproject.toml".to_vec()]);
            assert_eq!(data, b"[project]\nname = \"engine\"\n");
        },
        _ => panic!("expected a file write"),
    }
    match &plan[1] {
        TreeAction::WriteFile { path, .. } => {
            assert_eq!(path, &vec![b"sub".to_vec(), b"file.txt".to_vec()]);
        },
        _ => panic!("expected a file write"),
    }
}

#[test]
fn archive_unix_permissions_are_carried_into_the_plan() {
    let mut w = zip::ZipWriter::new(std::io::Cursor::new(Vec::new()));
    let options = zip::write::SimpleFileOptions::default().unix_permissions(0o755);
    w.start_file("root/scripts/run.sh", options).unwrap();
    w.write_all(b"#!/bin/sh\n").unwrap();
    let bytes = w.finish().unwrap().into_inner();

    let plan = plan_repo_extract(&bytes).unwrap();
    assert_eq!(plan.len(), 1);
    match &plan[0] {
        TreeAction::WriteFile { unix_mode, .. } => {
            assert_eq!(unix_mode.map(|m| m & 0o777), Some(0o755));
        },
        _ => panic!("expected a file write"),
    }
}

#[test]
fn empty_archive_yields_an_empty_plan() {
    let w = zip::ZipWriter::new(std::io::Cursor::new(Vec::new()));
    let bytes = w.finish().unwrap().into_inner();
    assert!(plan_repo_extract(&bytes).unwrap().is_empty());
}

#[test]
fn malformed_zip_snapshot_is_an_error() {
    match plan_repo_extract(b"not a zip") {
        Err(m) => assert!(m.starts_with("Failed to read zip ")),
        Ok(_) => panic!("garbage must not decode"),
    }
}
