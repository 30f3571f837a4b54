//! The alias rules over logical paths.

use static_builder::resource::Resource;

fn resource(path: &str) -> Resource {
    Resource::new(format!("static{path}"), path.to_string())
}

#[test]
fn root_index_aliases() {
    let r = resource("/index.html");
    assert_eq!(r.paths(), vec!["/index.html".to_string(), "/".to_string()]);
}

#[test]
fn dir_index_aliases() {
    let r = resource("/docs/index.html");
    assert_eq!(
        r.paths(),
        vec![
            "/docs/index.html".to_string(),
            "/docs".to_string(),
            "/docs/".to_string()
        ]
    );
}

#[test]
fn nested_dir_index_aliases() {
    let r = resource("/a/b/index.html");
    assert_eq!(
        r.paths(),
        vec![
            "/a/b/index.html".to_string(),
            "/a/b".to_string(),
            "/a/b/".to_string()
        ]
    );
}

#[test]
fn markup_alias_is_rewritten() {
    let r = resource("/a/b.dj");
    assert_eq!(r.paths(), vec!["/a/b.html".to_string()]);
}

#[test]
fn markup_index_gets_directory_aliases() {
    let r = resource("/index.dj");
    assert_eq!(r.paths(), vec!["/index.html".to_string(), "/".to_string()]);
}

#[test]
fn plain_file_single_alias() {
    let r = resource("/style.css");
    assert_eq!(r.paths(), vec!["/style.css".to_string()]);
}

#[test]
fn hidden_style_name_untouched() {
    let r = resource("/.well-known");
    assert_eq!(r.paths(), vec!["/.well-known".to_string()]);
}

#[test]
fn source_and_new_round_trip() {
    let r = Resource::new("static/a.txt".to_string(), "/a.txt".to_string());
    assert_eq!(r.source(), "static/a.txt".to_string());
}
