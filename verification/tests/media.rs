//! The classifier table: total on the supported extensions, stable, and a
//! hard failure on anything else.

use static_builder::errors::BuildError;
use static_builder::resource::Resource;

fn media_text_for(source: &str) -> String {
    let r = Resource::new(source.to_string(), "/x".to_string());
    r.media_type().expect("classifiable").as_text()
}

#[test]
fn classifier_table() {
    assert_eq!(media_text_for("a.html"), "text/html; charset=utf-8");
    assert_eq!(media_text_for("a.dj"), "text/html; charset=utf-8");
    assert_eq!(media_text_for("a.css"), "text/css");
    assert_eq!(media_text_for("a.cer"), "application/pkix-cert");
    assert_eq!(media_text_for("a.der"), "application/octet-stream");
    assert_eq!(media_text_for("a.gpg"), "application/pgp-keys");
    assert_eq!(media_text_for("a.ico"), "image/vnd.microsoft.icon");
    assert_eq!(media_text_for("a.js"), "application/json");
    assert_eq!(media_text_for("a.pem"), "text/plain");
    assert_eq!(media_text_for("a.pkbf"), "application/octet-stream");
    assert_eq!(media_text_for("a.png"), "image/png");
    assert_eq!(media_text_for("a.txt"), "text/plain");
}

#[test]
fn no_extension_is_octet_stream() {
    assert_eq!(media_text_for("Makefile"), "application/octet-stream");
}

#[test]
fn classifier_is_stable_across_calls() {
    let first = media_text_for("a.css");
    let second = media_text_for("b.css");
    assert_eq!(first, second);
}

#[test]
fn unsupported_extension_fails() {
    let r = Resource::new("a.xyz".to_string(), "/a.xyz".to_string());
    match r.media_type() {
        Err(BuildError::UnclassifiableExtension(e)) => assert_eq!(e, "xyz"),
        other => panic!("expected an unclassifiable-extension error, got {other:?}"),
    }
}

#[test]
fn error_message_names_the_extension() {
    let r = Resource::new("a.xyz".to_string(), "/a.xyz".to_string());
    let e = r.media_type().unwrap_err();
    assert_eq!(e.message(), "unclassifiable extension: xyz");
}
