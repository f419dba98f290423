use std::io::Read;

use zpack::archive::{build_archive, ArchiveEntry, ScanEvent};
use zpack::config::{Config, Package, Shortcut};
use zpack::resolve::build_list;
use zpack::shortcut::shortcut_file;
use zpack::zipio::{pack_files, write_zip};

#[test]
fn build_archive_maps_events_to_entries_and_warnings() {
    let events = vec![
        ScanEvent::File { path: String::from("root/bin/app.exe"), data: vec![1, 2, 3] },
        ScanEvent::Dir { path: String::from("root/empty") },
        ScanEvent::Error { message: String::from("boom") },
        ScanEvent::File { path: String::from("root/Launch.bat"), data: vec![4] },
    ];
    let (entries, warnings) = build_archive("root", events);
    assert_eq!(entries.len(), 3);
    match &entries[0] {
        ArchiveEntry::File { path, data } => {
            assert_eq!(path, "bin/app.exe");
            assert_eq!(data, &vec![1, 2, 3]);
        }
        _ => panic!("expected a file entry"),
    }
    match &entries[1] {
        ArchiveEntry::Dir { path } => assert_eq!(path, "empty"),
        _ => panic!("expected a directory entry"),
    }
    match &entries[2] {
        ArchiveEntry::File { path, data } => {
            assert_eq!(path, "Launch.bat");
            assert_eq!(data, &vec![4]);
        }
        _ => panic!("expected a file entry"),
    }
    assert_eq!(warnings, vec![String::from("boom")]);
}

#[test]
fn build_archive_skips_the_root_directory_itself() {
    let events = vec![ScanEvent::Dir { path: String::from("root") }];
    let (entries, warnings) = build_archive("root", events);
    assert!(entries.is_empty());
    assert!(warnings.is_empty());
}

#[test]
fn archive_round_trip_preserves_bytes() {
    let original = vec![0u8, 1, 2, 250, 255, 42];
    let events = vec![
        ScanEvent::File { path: String::from("root/bin/app.exe"), data: original.clone() },
        ScanEvent::File { path: String::from("root/data/notes.txt"), data: b"hello".to_vec() },
    ];
    let (data, warnings) = pack_files("root", events).unwrap();
    assert!(warnings.is_empty());

    let mut archive = zip::ZipArchive::new(std::io::Cursor::new(data)).unwrap();
    assert_eq!(archive.len(), 2);
    {
        let mut first = archive.by_index(0).unwrap();
        assert_eq!(first.name(), "bin/app.exe");
        assert_eq!(first.compression(), zip::CompressionMethod::Stored);
        assert_eq!(first.unix_mode().map(|mode| mode & 0o777), Some(0o755));
        let mut bytes = Vec::new();
        first.read_to_end(&mut bytes).unwrap();
        assert_eq!(bytes, original);
    }
    {
        let mut second = archive.by_index(1).unwrap();
        assert_eq!(second.name(), "data/notes.txt");
        let mut bytes = Vec::new();
        second.read_to_end(&mut bytes).unwrap();
        assert_eq!(bytes, b"hello".to_vec());
    }
}

#[test]
fn empty_directory_gets_an_explicit_entry() {
    let events = vec![
        ScanEvent::Dir { path: String::from("root/empty") },
        ScanEvent::File { path: String::from("root/a.txt"), data: vec![7] },
    ];
    let (data, _) = pack_files("root", events).unwrap();
    let mut archive = zip::ZipArchive::new(std::io::Cursor::new(data)).unwrap();
    assert_eq!(archive.len(), 2);
    let dir = archive.by_index(0).unwrap();
    assert_eq!(dir.name(), "empty/");
    assert!(dir.is_dir());
}

#[test]
fn traversal_error_warns_without_losing_the_rest() {
    let events = vec![
        ScanEvent::Error { message: String::from("'root/gone' is not walkable") },
        ScanEvent::File { path: String::from("root/kept.txt"), data: vec![9, 9] },
    ];
    let (data, warnings) = pack_files("root", events).unwrap();
    assert_eq!(warnings, vec![String::from("'root/gone' is not walkable")]);
    let mut archive = zip::ZipArchive::new(std::io::Cursor::new(data)).unwrap();
    assert_eq!(archive.len(), 1);
    let mut kept = archive.by_index(0).unwrap();
    assert_eq!(kept.name(), "kept.txt");
    let mut bytes = Vec::new();
    kept.read_to_end(&mut bytes).unwrap();
    assert_eq!(bytes, vec![9, 9]);
}

#[test]
fn overlapping_scans_are_archived_independently() {
    // no deduplication: the same file walked twice contributes two entries
    let events = vec![
        ScanEvent::File { path: String::from("root/a.txt"), data: vec![1] },
        ScanEvent::File { path: String::from("root/a.txt"), data: vec![1] },
    ];
    let (entries, warnings) = build_archive("root", events);
    assert_eq!(entries.len(), 2);
    assert!(warnings.is_empty());
}

#[test]
fn duplicate_entry_names_fail_the_build() {
    let entries = vec![
        ArchiveEntry::File { path: String::from("a.txt"), data: vec![1] },
        ArchiveEntry::File { path: String::from("a.txt"), data: vec![2] },
    ];
    assert!(write_zip(&entries).is_err());
}

#[test]
fn all_paths_failing_still_succeeds() {
    // a scan made only of traversal failures packs an empty archive
    let events = vec![
        ScanEvent::Error { message: String::from("'root/a' is not walkable") },
        ScanEvent::Error { message: String::from("'root/b' is not walkable") },
    ];
    let (data, warnings) = pack_files("root", events).unwrap();
    assert_eq!(warnings.len(), 2);
    let archive = zip::ZipArchive::new(std::io::Cursor::new(data)).unwrap();
    assert_eq!(archive.len(), 0);
}

#[test]
fn packing_no_events_yields_an_empty_archive() {
    let (data, warnings) = pack_files("root", Vec::new()).unwrap();
    assert!(warnings.is_empty());
    let archive = zip::ZipArchive::new(std::io::Cursor::new(data)).unwrap();
    assert_eq!(archive.len(), 0);
}

#[test]
fn scenario_direct_shortcut() {
    // manifest: version 0.0.1, package "app" shipping bin/app.exe plus a
    // direct-invoke launcher
    let config = Config {
        version: String::from("0.0.1"),
        packages: vec![Package {
            name: String::from("app"),
            filepaths: vec![String::from("bin/app.exe")],
            shortcuts: vec![Shortcut {
                name: String::from("Launch.bat"),
                target: String::from("bin/app.exe"),
                cwd: String::from(""),
            }],
        }],
    };
    let indices = zpack::config::select_packages(&config, "app").unwrap();
    assert_eq!(indices, vec![0]);
    let package = &config.packages[0];
    let list = build_list(package, "root");
    assert_eq!(list, vec![String::from("root/bin/app.exe"), String::from("root/Launch.bat")]);

    let app_bytes = vec![77u8, 90, 0, 1];
    let launcher = shortcut_file(&package.shortcuts[0], "root");
    let events = vec![
        ScanEvent::File { path: list[0].clone(), data: app_bytes.clone() },
        ScanEvent::File { path: launcher.path.clone(), data: launcher.contents.clone().into_bytes() },
    ];
    let (data, warnings) = pack_files("root", events).unwrap();
    assert!(warnings.is_empty());

    let mut archive = zip::ZipArchive::new(std::io::Cursor::new(data)).unwrap();
    assert_eq!(archive.len(), 2);
    {
        let mut exe = archive.by_index(0).unwrap();
        assert_eq!(exe.name(), "bin/app.exe");
        let mut bytes = Vec::new();
        exe.read_to_end(&mut bytes).unwrap();
        assert_eq!(bytes, app_bytes);
    }
    {
        let mut bat = archive.by_index(1).unwrap();
        assert_eq!(bat.name(), "Launch.bat");
        let mut text = String::new();
        bat.read_to_string(&mut text).unwrap();
        assert_eq!(text, "@start \"\" \"bin/app.exe\"\n");
    }
}

#[test]
fn scenario_working_directory_shortcut() {
    // same manifest, but the launcher must cd into bin next to itself and
    // invoke only the filename component of its target
    let shortcut = Shortcut {
        name: String::from("Launch.bat"),
        target: String::from("bin/app.exe"),
        cwd: String::from("bin"),
    };
    let launcher = shortcut_file(&shortcut, "root");
    let events = vec![
        ScanEvent::File { path: String::from("root/bin/app.exe"), data: vec![1] },
        ScanEvent::File { path: launcher.path.clone(), data: launcher.contents.clone().into_bytes() },
    ];
    let (data, _) = pack_files("root", events).unwrap();
    let mut archive = zip::ZipArchive::new(std::io::Cursor::new(data)).unwrap();
    let mut bat = archive.by_name("Launch.bat").unwrap();
    let mut text = String::new();
    bat.read_to_string(&mut text).unwrap();
    assert_eq!(text, "@echo off\n\ncd /D %~dp0bin\ncall .\\app.exe\n");
}
