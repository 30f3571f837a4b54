//! The scanner: hidden-entry filtering, logical paths, rebuild triggers.

use static_builder::scan::{scan_resources, valid_static_file, FsEntry};

fn entry(rel: &[&str], is_dir: bool) -> FsEntry {
    FsEntry {
        rel: rel.iter().map(|s| s.to_string()).collect(),
        is_dir,
    }
}

#[test]
fn hidden_marker_filter() {
    assert!(valid_static_file("style.css"));
    assert!(valid_static_file(""));
    assert!(!valid_static_file(".git"));
    assert!(!valid_static_file(".hidden.txt"));
}

#[test]
fn hidden_only_tree_yields_no_resources() {
    let entries = vec![
        entry(&[], true),
        entry(&[".git"], true),
        entry(&[".git", "config"], false),
        entry(&[".hidden"], false),
    ];
    let out = scan_resources("static", &entries, false);
    assert!(out.resources.is_empty());
}

#[test]
fn files_become_resources_with_logical_paths() {
    let entries = vec![
        entry(&[], true),
        entry(&["docs"], true),
        entry(&["docs", "index.html"], false),
        entry(&["style.css"], false),
    ];
    let out = scan_resources("static", &entries, false);
    assert_eq!(out.resources.len(), 2);
    assert_eq!(out.resources[0].source(), "static/docs/index.html");
    assert_eq!(out.resources[0].paths()[0], "/docs/index.html");
    assert_eq!(out.resources[1].source(), "static/style.css");
    assert_eq!(out.resources[1].paths(), vec!["/style.css".to_string()]);
}

#[test]
fn hidden_directory_excludes_its_subtree() {
    let entries = vec![
        entry(&[], true),
        entry(&[".cache"], true),
        entry(&[".cache", "page.html"], false),
        entry(&["page.html"], false),
    ];
    let out = scan_resources("static", &entries, false);
    assert_eq!(out.resources.len(), 1);
    assert_eq!(out.resources[0].source(), "static/page.html");
}

#[test]
fn live_build_watches_directories_only() {
    let entries = vec![
        entry(&[], true),
        entry(&["docs"], true),
        entry(&["docs", "a.txt"], false),
    ];
    let out = scan_resources("static", &entries, false);
    assert_eq!(
        out.rebuild_paths,
        vec!["static".to_string(), "static/docs".to_string()]
    );
}

#[test]
fn frozen_build_watches_files_too() {
    let entries = vec![
        entry(&[], true),
        entry(&["docs"], true),
        entry(&["docs", "a.txt"], false),
    ];
    let out = scan_resources("static", &entries, true);
    assert_eq!(
        out.rebuild_paths,
        vec![
            "static".to_string(),
            "static/docs".to_string(),
            "static/docs/a.txt".to_string()
        ]
    );
}
