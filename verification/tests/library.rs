use zpack::config::{default_cwd, default_shortcuts, select_packages, Config, Package, SelectError, Shortcut};
use zpack::paths::{file_name_of, join_path, rel_path};
use zpack::resolve::build_list;
use zpack::shortcut::{shortcut_contents, shortcut_file};

#[test]
fn defaults_are_empty() {
    assert_eq!(default_cwd(), "");
    assert!(default_shortcuts().is_empty());
}

#[test]
fn join_path_inserts_separator() {
    assert_eq!(join_path("root", "bin/app.exe"), "root/bin/app.exe");
    assert_eq!(join_path("root/", "bin"), "root/bin");
    assert_eq!(join_path("", "bin"), "bin");
    assert_eq!(join_path("root", "/abs"), "/abs");
    assert_eq!(join_path("root", ""), "root/");
}

#[test]
fn file_name_takes_last_component() {
    assert_eq!(file_name_of("bin/app.exe"), "app.exe");
    assert_eq!(file_name_of("app.exe"), "app.exe");
    assert_eq!(file_name_of("a/b/c"), "c");
    assert_eq!(file_name_of(""), "");
}

#[test]
fn file_name_ignores_trailing_separators() {
    assert_eq!(file_name_of("a/"), "a");
    assert_eq!(file_name_of("bin/app/"), "app");
    assert_eq!(file_name_of("a//"), "a");
    assert_eq!(file_name_of("/"), "");
    assert_eq!(file_name_of("///"), "");
}

#[test]
fn rel_path_strips_root_prefix() {
    assert_eq!(rel_path("root", "root/a/b"), "a/b");
    assert_eq!(rel_path("root/", "root/a"), "a");
    assert_eq!(rel_path("root", "root"), "");
    assert_eq!(rel_path("", "a"), "a");
}

#[test]
fn build_list_keeps_declaration_order() {
    let package = Package {
        name: String::from("app"),
        filepaths: vec![String::from("bin/app.exe"), String::from("data")],
        shortcuts: vec![
            Shortcut {
                name: String::from("Launch.bat"),
                target: String::from("bin/app.exe"),
                cwd: String::from(""),
            },
        ],
    };
    let list = build_list(&package, "root");
    assert_eq!(
        list,
        vec![
            String::from("root/bin/app.exe"),
            String::from("root/data"),
            String::from("root/Launch.bat"),
        ]
    );
    assert_eq!(list.len(), package.filepaths.len() + package.shortcuts.len());
}

#[test]
fn build_list_of_empty_package_is_empty() {
    let package = Package { name: String::from("app"), filepaths: vec![], shortcuts: vec![] };
    assert!(build_list(&package, "root").is_empty());
}

#[test]
fn shortcut_contents_direct_launcher() {
    let s = Shortcut {
        name: String::from("Launch.bat"),
        target: String::from("bin/app.exe"),
        cwd: String::from(""),
    };
    assert_eq!(shortcut_contents(&s), "@start \"\" \"bin/app.exe\"\n");
}

#[test]
fn shortcut_contents_with_working_directory() {
    let s = Shortcut {
        name: String::from("Launch.bat"),
        target: String::from("bin/app.exe"),
        cwd: String::from("bin"),
    };
    assert_eq!(
        shortcut_contents(&s),
        "@echo off\n\ncd /D %~dp0bin\ncall .\\app.exe\n"
    );
}

#[test]
fn shortcut_contents_idempotent() {
    let s = Shortcut {
        name: String::from("Launch.bat"),
        target: String::from("bin/app.exe"),
        cwd: String::from("bin"),
    };
    let first = shortcut_contents(&s);
    let second = shortcut_contents(&s);
    assert_eq!(first.as_bytes(), second.as_bytes());
}

#[test]
fn shortcut_file_plans_destination() {
    let s = Shortcut {
        name: String::from("Launch.bat"),
        target: String::from("bin/app.exe"),
        cwd: String::from(""),
    };
    let plan = shortcut_file(&s, "root");
    assert_eq!(plan.path, "root/Launch.bat");
    assert_eq!(plan.contents, "@start \"\" \"bin/app.exe\"\n");
}

#[test]
fn select_finds_every_match_in_order() {
    let config = Config {
        version: String::from("0.0.1"),
        packages: vec![
            Package { name: String::from("other"), filepaths: vec![], shortcuts: vec![] },
            Package { name: String::from("app"), filepaths: vec![], shortcuts: vec![] },
            Package { name: String::from("app"), filepaths: vec![], shortcuts: vec![] },
        ],
    };
    let indices = select_packages(&config, "app").unwrap();
    assert_eq!(indices, vec![1, 2]);
}

#[test]
fn select_rejects_unsupported_version_on_match() {
    let config = Config {
        version: String::from("0.0.2"),
        packages: vec![Package { name: String::from("app"), filepaths: vec![], shortcuts: vec![] }],
    };
    match select_packages(&config, "app") {
        Err(SelectError::UnsupportedVersion { version }) => {
            assert_eq!(version, "0.0.2");
        }
        _ => panic!("expected an unsupported-version failure"),
    }
}

#[test]
fn select_reports_not_found_after_scanning_all() {
    // even under a wrong version, a name that matches nothing is reported as
    // not found: the version is only checked at a name match
    let config = Config {
        version: String::from("9.9.9"),
        packages: vec![
            Package { name: String::from("alpha"), filepaths: vec![], shortcuts: vec![] },
            Package { name: String::from("beta"), filepaths: vec![], shortcuts: vec![] },
        ],
    };
    match select_packages(&config, "gamma") {
        Err(SelectError::PackageNotFound { name }) => {
            assert_eq!(name, "gamma");
        }
        _ => panic!("expected a not-found failure"),
    }
}

#[test]
fn select_error_messages() {
    let not_found = SelectError::PackageNotFound { name: String::from("gamma") };
    assert_eq!(not_found.message(), "'gamma' is not found");
    let bad_version = SelectError::UnsupportedVersion { version: String::from("0.0.2") };
    assert_eq!(bad_version.message(), "unsupported version 0.0.2");
}
