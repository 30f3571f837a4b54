//! Rendering: front matter, template-block wrapping, markup conversion, and
//! template evaluation through the real engine.

use static_builder::errors::BuildError;
use static_builder::render::{render_content, render_djot, render_html_source, RawSource};

#[test]
fn titled_document_duplicates_title_blocks() {
    let out = render_djot("---\ntitle: \"T\"\n---\nhello").expect("renders");
    assert!(out.contains("{% block headtitle %}T{% endblock headtitle %}"));
    assert!(out.contains("{% block pagetitle %}T{% endblock pagetitle %}"));
    assert!(!out.contains("extends"));
    assert!(out.contains("{% block content %}\n<p>hello</p>\n{% endblock content %}\n"));
}

#[test]
fn layout_document_begins_with_extends() {
    let out = render_djot("---\nlayout: base\n---\nbody").expect("renders");
    assert!(out.starts_with("{% extends \"base.html\" %}"));
}

#[test]
fn title_and_layout_exact_assembly() {
    let out = render_djot("---\ntitle: T\nlayout: base\n---\nhello").expect("renders");
    assert_eq!(
        out,
        "{% extends \"base.html\" %}\n\
         {% block headtitle %}T{% endblock headtitle %}\
         {% block pagetitle %}T{% endblock pagetitle %}\n\
         {% block content %}\n<p>hello</p>\n{% endblock content %}\n"
    );
}

#[test]
fn markup_is_converted_to_html() {
    let out = render_djot("---\ntitle: x\n---\n# Heading").expect("renders");
    assert!(out.contains("<h1"));
    assert!(out.contains("Heading"));
}

#[test]
fn unknown_front_matter_keys_are_ignored() {
    let out = render_djot("---\ntitle: T\ndate: 2021-01-01\n---\nhello").expect("renders");
    assert!(out.contains("{% block headtitle %}T{% endblock headtitle %}"));
}

#[test]
fn missing_front_matter_is_rejected() {
    match render_djot("just a paragraph") {
        Err(BuildError::FrontMatter(_)) => {}
        other => panic!("expected a front-matter error, got {other:?}"),
    }
}

#[test]
fn template_engine_evaluates_html_sources() {
    let out = render_html_source("{% if true %}x{% endif %}-y").expect("renders");
    assert_eq!(out, "x-y");
}

#[test]
fn rendered_markup_reaches_final_html() {
    let raw = RawSource::Text("---\ntitle: T\n---\nhi".to_string());
    let out = render_content("site/page.dj", &raw).expect("renders");
    let text = String::from_utf8(out).expect("utf-8");
    assert!(text.contains("<p>hi</p>"));
}

#[test]
fn pass_through_bytes_unchanged() {
    let raw = RawSource::Bytes(vec![1, 2, 3, 255]);
    let out = render_content("site/logo.png", &raw).expect("passes through");
    assert_eq!(out, vec![1, 2, 3, 255]);
}

#[test]
fn bad_template_syntax_fails_the_build() {
    match render_html_source("{% endblock nothing %}") {
        Err(BuildError::Template(_)) => {}
        other => panic!("expected a template error, got {other:?}"),
    }
}
