//! Route synthesis and dispatch: collisions, method rejection, the two modes.

use static_builder::errors::BuildError;
use static_builder::media::MediaType;
use static_builder::pipeline::{build_route_table, SourceInput};
use static_builder::render::{render_content, RawSource};
use static_builder::resource::Resource;
use static_builder::routes::{
    synthesize_routes, BuildMode, CompiledResource, DispatchOutcome, Method, RouteTable,
};

fn css_item(source: &str, alias: &[&str], content: &[u8]) -> CompiledResource {
    CompiledResource {
        source: source.to_string(),
        alias: alias.iter().map(|s| s.to_string()).collect(),
        media: MediaType::TextCss,
        content: content.to_vec(),
    }
}

fn frozen_css_table(content: &[u8]) -> RouteTable {
    let items = vec![css_item("static/style.css", &["/style.css"], content)];
    synthesize_routes(&items, BuildMode::Frozen).expect("no collision")
}

#[test]
fn duplicate_path_is_a_collision() {
    let items = vec![
        css_item("static/a.css", &["/a.css", "/shared"], b"a"),
        css_item("static/b.css", &["/shared"], b"b"),
    ];
    match synthesize_routes(&items, BuildMode::Frozen) {
        Err(BuildError::PathCollision(p)) => assert_eq!(p, "/shared"),
        other => panic!("expected a path collision, got {other:?}"),
    }
}

#[test]
fn intersecting_alias_sets_fail_the_build() {
    // `/index.html` and `/index.dj` both claim `/index.html` and `/`.
    let inputs = vec![
        SourceInput {
            resource: Resource::new("static/index.html".to_string(), "/index.html".to_string()),
            raw: RawSource::Text("<p>a</p>".to_string()),
        },
        SourceInput {
            resource: Resource::new("static/index.dj".to_string(), "/index.dj".to_string()),
            raw: RawSource::Text("---\ntitle: t\n---\nb".to_string()),
        },
    ];
    match build_route_table(&inputs, BuildMode::Frozen) {
        Err(BuildError::PathCollision(_)) => {}
        other => panic!("expected a path collision, got {other:?}"),
    }
}

#[test]
fn unclassifiable_extension_fails_the_build() {
    let inputs = vec![SourceInput {
        resource: Resource::new("static/a.xyz".to_string(), "/a.xyz".to_string()),
        raw: RawSource::Bytes(vec![0]),
    }];
    match build_route_table(&inputs, BuildMode::Frozen) {
        Err(BuildError::UnclassifiableExtension(e)) => assert_eq!(e, "xyz"),
        other => panic!("expected an unclassifiable-extension error, got {other:?}"),
    }
}

#[test]
fn pass_through_build_always_succeeds() {
    // No resource needs the template engine and nothing collides, so the
    // build is owed success.
    let inputs = vec![
        SourceInput {
            resource: Resource::new("static/style.css".to_string(), "/style.css".to_string()),
            raw: RawSource::Bytes(b"body{}".to_vec()),
        },
        SourceInput {
            resource: Resource::new("static/logo.png".to_string(), "/logo.png".to_string()),
            raw: RawSource::Bytes(vec![1, 2, 3]),
        },
    ];
    let table = build_route_table(&inputs, BuildMode::Frozen).expect("owed success");
    match table.dispatch(Method::Get, "/logo.png") {
        DispatchOutcome::Frozen(bytes, media) => {
            assert_eq!(bytes, vec![1, 2, 3]);
            assert_eq!(media, MediaType::ImagePng);
        }
        other => panic!("expected frozen content, got {other:?}"),
    }
}

#[test]
fn post_is_rejected_on_a_registered_path() {
    let table = frozen_css_table(b"body{}");
    match table.dispatch(Method::Other, "/style.css") {
        DispatchOutcome::MethodNotAllowed => {}
        other => panic!("expected method rejection, got {other:?}"),
    }
}

#[test]
fn unregistered_path_is_distinguishable() {
    let table = frozen_css_table(b"body{}");
    match table.dispatch(Method::Get, "/elsewhere") {
        DispatchOutcome::Unregistered => {}
        other => panic!("expected the unregistered outcome, got {other:?}"),
    }
}

#[test]
fn get_and_head_serve_frozen_content() {
    let table = frozen_css_table(b"body{}");
    for m in [Method::Get, Method::Head] {
        match table.dispatch(m, "/style.css") {
            DispatchOutcome::Frozen(bytes, media) => {
                assert_eq!(bytes, b"body{}".to_vec());
                assert_eq!(media, MediaType::TextCss);
            }
            other => panic!("expected frozen content, got {other:?}"),
        }
    }
}

#[test]
fn frozen_content_ignores_later_edits() {
    // Compile with the first version of the source...
    let table = frozen_css_table(b"body { color: red }");
    // ... then "edit" the source file; the compiled table cannot see it.
    let edited = b"body { color: blue }";
    match table.dispatch(Method::Get, "/style.css") {
        DispatchOutcome::Frozen(bytes, _) => {
            assert_eq!(bytes, b"body { color: red }".to_vec());
            assert_ne!(bytes, edited.to_vec());
        }
        other => panic!("expected frozen content, got {other:?}"),
    }
}

#[test]
fn live_mode_re_renders_from_the_source() {
    let items = vec![css_item(
        "static/style.css",
        &["/style.css"],
        b"body { color: red }",
    )];
    let table = synthesize_routes(&items, BuildMode::Live).expect("no collision");
    match table.dispatch(Method::Get, "/style.css") {
        DispatchOutcome::Live(source, media) => {
            assert_eq!(source, "static/style.css");
            assert_eq!(media, MediaType::TextCss);
            // The host re-reads the (edited) source and re-renders it: the
            // edit is served without recompiling the table.
            let edited = RawSource::Bytes(b"body { color: blue }".to_vec());
            let served = render_content(&source, &edited).expect("renders");
            assert_eq!(served, b"body { color: blue }".to_vec());
        }
        other => panic!("expected a live entry, got {other:?}"),
    }
}

#[test]
fn path_patterns_lists_every_alias() {
    let inputs = vec![SourceInput {
        resource: Resource::new("static/docs/index.html".to_string(), "/docs/index.html".to_string()),
        raw: RawSource::Text("<p>d</p>".to_string()),
    }];
    let table = build_route_table(&inputs, BuildMode::Frozen).expect("builds");
    assert_eq!(
        table.path_patterns(),
        vec![
            "/docs/index.html".to_string(),
            "/docs".to_string(),
            "/docs/".to_string()
        ]
    );
}

#[test]
fn frozen_build_bakes_rendered_bytes() {
    let inputs = vec![SourceInput {
        resource: Resource::new("static/page.dj".to_string(), "/page.dj".to_string()),
        raw: RawSource::Text("---\ntitle: T\n---\nhi".to_string()),
    }];
    let table = build_route_table(&inputs, BuildMode::Frozen).expect("builds");
    match table.dispatch(Method::Get, "/page.html") {
        DispatchOutcome::Frozen(bytes, media) => {
            assert_eq!(media, MediaType::TextHtmlUtf8);
            let text = String::from_utf8(bytes).expect("utf-8");
            assert!(text.contains("<p>hi</p>"));
        }
        other => panic!("expected frozen content, got {other:?}"),
    }
}
