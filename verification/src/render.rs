//! Content rendering. An `html` source is evaluated by the template engine
//! with an empty context; a `dj` (djot markup) source is split into YAML front
//! matter and body, wrapped into the template-block protocol (`headtitle`,
//! `pagetitle`, `content`, and an `extends` directive when a layout is named),
//! its body converted to HTML, and the assembled template source evaluated by
//! the same engine; every other source passes through unchanged.

use vstd::prelude::*;
use vstd::string::{StrSliceExecFns, StringExecFns};

use crate::errors::BuildError;
use crate::pathspec::extension_of;
use crate::strutil::str_eq;

verus! {

/// The front matter of one markup source: the two recognized optional keys
/// and the body after the YAML block. Other keys are ignored.
pub struct FrontMatter {
    pub title: Option<String>,
    pub layout: Option<String>,
    pub body: String,
}

/// What front-matter parsing yields on a given document: `None` when the
/// document is rejected, otherwise the optional `title` and `layout` string
/// entries and the remaining body. The parse is a function of the document
/// text alone.
pub uninterp spec fn fm_of(s: Seq<char>) -> Option<(Option<Seq<char>>, Option<Seq<char>>, Seq<char>)>;

/// Relies on `yaml_front_matter::YamlFrontMatter::parse` (reading the parsed
/// metadata through `serde_yaml::Value`'s variant accessors `is_mapping`,
/// `get` and `as_str`): it splits the leading YAML block from the document,
/// and its result is a function of the document text alone. The block must be
/// a mapping whose `title` and `layout` entries, when present, are strings;
/// the body is the document after the block.
#[verifier::external_body]
fn fm_parse(input: &str) -> (r: Result<FrontMatter, String>)
    ensures
        r matches Ok(fm) ==> (fm_of(input@) matches Some(m) && fm.title.deep_view() == m.0
            && fm.layout.deep_view() == m.1 && fm.body@ == m.2),
        r matches Err(_) ==> fm_of(input@) is None,
{
    let doc = match yaml_front_matter::YamlFrontMatter::parse::<serde_yaml::Value>(input) {
        Ok(d) => d,
        Err(e) => return Err(format!("{e}")),
    };
    if !doc.metadata.is_mapping() {
        return Err("front matter is not a mapping".to_string());
    }
    let string_entry = |key: &str| {
        doc.metadata.get(key).map(|v| v.as_str().map(str::to_string).ok_or(format!("{key} is not a string"))).transpose()
    };
    Ok(FrontMatter { title: string_entry("title")?, layout: string_entry("layout")?, body: doc.content })
}

/// The HTML that the markup converter produces for a djot body: a function of
/// the body text alone.
pub uninterp spec fn djot_html_of(s: Seq<char>) -> Seq<char>;

/// Relies on `jotdown::Parser::new` and `jotdown::html::render_to_string`:
/// the converter's default block and inline semantics, producing HTML that is
/// a function of the input document alone.
#[verifier::external_body]
fn djot_to_html(s: &str) -> (r: String)
    ensures
        r@ == djot_html_of(s@),
{
    jotdown::html::render_to_string(jotdown::Parser::new(s))
}

/// Declares `tera::Tera`, the template engine, so verified code can hold an
/// engine opaquely and hand it to the wrappers below.
#[verifier::external_type_specification]
#[verifier::external_body]
pub struct ExTera(tera::Tera);

/// Relies on `tera::Tera::new`: loads and parses every layout template the
/// glob matches. The result depends on the files on disk, so nothing more is
/// stated of it.
#[verifier::external_body]
fn tera_new(glob: &str) -> (r: Result<tera::Tera, String>) {
    match tera::Tera::new(glob) {
        Ok(t) => Ok(t),
        Err(e) => Err(format!("{e}")),
    }
}

/// Relies on `tera::Tera::render_str` with an empty `tera::Context`:
/// evaluates one template source against the loaded layout templates. The
/// result depends on those templates, so nothing more is stated of it.
#[verifier::external_body]
fn tera_render_empty(engine: &mut tera::Tera, source: &str) -> (r: Result<String, String>) {
    let ctx = tera::Context::new();
    match engine.render_str(source, &ctx) {
        Ok(s) => Ok(s),
        Err(e) => Err(format!("{e}")),
    }
}

/// The `extends` directive naming the layout template, or nothing.
pub open spec fn extends_text(layout: Option<Seq<char>>) -> Seq<char> {
    match layout {
        Some(l) => "{% extends \""@ + l + ".html\" %}"@ + "\n"@,
        None => Seq::<char>::empty(),
    }
}

/// The `headtitle` and `pagetitle` blocks, both holding the same title text,
/// or nothing when the document has no title.
pub open spec fn title_blocks_text(title: Option<Seq<char>>) -> Seq<char> {
    match title {
        Some(t) => "{% block headtitle %}"@ + t + "{% endblock headtitle %}"@
            + "{% block pagetitle %}"@ + t + "{% endblock pagetitle %}"@ + "\n"@,
        None => Seq::<char>::empty(),
    }
}

/// The `content` block wrapping the converted body.
pub open spec fn content_block_text(body_html: Seq<char>) -> Seq<char> {
    "{% block content %}\n"@ + body_html + "{% endblock content %}\n"@
}

/// The whole template source assembled for one markup document.
pub open spec fn djot_template(
    title: Option<Seq<char>>,
    layout: Option<Seq<char>>,
    body_html: Seq<char>,
) -> Seq<char> {
    extends_text(layout) + title_blocks_text(title) + content_block_text(body_html)
}

/// Assembles the template source for a markup document from its front matter
/// and its body already converted to HTML.
pub fn assemble_djot_template(
    title: &Option<String>,
    layout: &Option<String>,
    body_html: &str,
) -> (r: String)
    ensures
        r@ == djot_template(title.deep_view(), layout.deep_view(), body_html@),
{
    let mut out = String::new();
    if let Some(l) = layout {
        out.append("{% extends \"");
        out.append(l.as_str());
        out.append(".html\" %}");
        out.append("\n");
    }
    if let Some(t) = title {
        out.append("{% block headtitle %}");
        out.append(t.as_str());
        out.append("{% endblock headtitle %}");
        out.append("{% block pagetitle %}");
        out.append(t.as_str());
        out.append("{% endblock pagetitle %}");
        out.append("\n");
    }
    out.append("{% block content %}\n");
    out.append(body_html);
    out.append("{% endblock content %}\n");
    proof {
        assert(out@ =~= djot_template(title.deep_view(), layout.deep_view(), body_html@));
    }
    out
}

/// Parses a markup document's front matter and produces the template source
/// for it: the `extends` directive when a layout is named, both title blocks
/// when a title is given, and the converted body inside the `content` block.
pub fn render_djot(input: &str) -> (r: Result<String, BuildError>)
    ensures
        r matches Ok(s) ==> (fm_of(input@) matches Some(m) && s@ == djot_template(
            m.0,
            m.1,
            djot_html_of(m.2),
        )),
        r matches Err(e) ==> (fm_of(input@) is None && e matches BuildError::FrontMatter(_)),
{
    match fm_parse(input) {
        Err(e) => Err(BuildError::FrontMatter(e)),
        Ok(fm) => {
            let html = djot_to_html(fm.body.as_str());
            Ok(assemble_djot_template(&fm.title, &fm.layout, html.as_str()))
        },
    }
}

/// Evaluates an `html` source through the template engine with an empty
/// context, against the layout templates.
pub fn render_html_source(input: &str) -> (r: Result<String, BuildError>)
    ensures
        r matches Err(e) ==> e matches BuildError::Template(_),
{
    let mut engine = match tera_new("layouts/**/*.html") {
        Err(e) => return Err(BuildError::Template(e)),
        Ok(t) => t,
    };
    match tera_render_empty(&mut engine, input) {
        Err(e) => Err(BuildError::Template(e)),
        Ok(s) => Ok(s),
    }
}

/// Renders a markup source: assembles the template source with `render_djot`,
/// then evaluates it through the same engine as `html` sources. The build
/// fails on a front-matter error exactly when the front matter is rejected,
/// and otherwise only on a template-evaluation error.
pub fn render_djot_source(input: &str) -> (r: Result<String, BuildError>)
    ensures
        (r matches Err(e) && e matches BuildError::FrontMatter(_)) <==> fm_of(input@) is None,
        r matches Err(e) ==> (e matches BuildError::FrontMatter(_) || e matches
            BuildError::Template(_)),
{
    let template_src = match render_djot(input) {
        Err(e) => return Err(e),
        Ok(s) => s,
    };
    match render_html_source(template_src.as_str()) {
        Err(e) => Err(e),
        Ok(s) => Ok(s),
    }
}

/// How the renderer treats a source, decided by its extension.
#[derive(Clone, Copy, Debug, PartialEq, Eq, Structural)]
pub enum SourceKind {
    /// Template-evaluated HTML.
    Html,
    /// Markup dialect with front matter.
    Djot,
    /// Raw pass-through bytes.
    Other,
}

/// The renderer's dispatch table over an optional extension.
pub open spec fn kind_of_ext(e: Option<Seq<char>>) -> SourceKind {
    if e == Some("html"@) {
        SourceKind::Html
    } else if e == Some("dj"@) {
        SourceKind::Djot
    } else {
        SourceKind::Other
    }
}

/// Computes `kind_of_ext` over a source path's extension.
pub fn source_kind(path: &str) -> (r: SourceKind)
    ensures
        r == kind_of_ext(extension_of(path@)),
{
    let ext = crate::pathspec::extension(path);
    match &ext {
        Some(e) => {
            if str_eq(e.as_str(), "html") {
                SourceKind::Html
            } else if str_eq(e.as_str(), "dj") {
                SourceKind::Djot
            } else {
                SourceKind::Other
            }
        },
        None => SourceKind::Other,
    }
}

/// The raw content of one source file, as the build hands it to the renderer:
/// textual for the two rendered kinds, raw bytes for pass-through files.
pub enum RawSource {
    Text(String),
    Bytes(Vec<u8>),
}

/// Renders one source file's content. Textual kinds are rendered to the
/// template engine's output encoded as UTF-8; a pass-through source is
/// returned byte for byte.
pub fn render_content(source_path: &str, raw: &RawSource) -> (r: Result<Vec<u8>, BuildError>)
    requires
        (kind_of_ext(extension_of(source_path@)) is Other) <==> raw is Bytes,
    ensures
        kind_of_ext(extension_of(source_path@)) is Other ==> (r matches Ok(b) && raw matches
            RawSource::Bytes(v) && b@ == v@),
        kind_of_ext(extension_of(source_path@)) is Djot ==> ((r matches Err(e) && e matches
            BuildError::FrontMatter(_)) <==> (raw matches RawSource::Text(t) && fm_of(t@) is None)),
        r matches Err(e) ==> (e matches BuildError::FrontMatter(_) || e matches
            BuildError::Template(_)),
{
    match source_kind(source_path) {
        SourceKind::Html => match raw {
            RawSource::Text(t) => match render_html_source(t.as_str()) {
                Ok(s) => Ok(s.as_str().as_bytes_vec()),
                Err(e) => Err(e),
            },
            RawSource::Bytes(_) => {
                proof {
                    assert(false);
                }
                Ok(Vec::new())
            },
        },
        SourceKind::Djot => match raw {
            RawSource::Text(t) => match render_djot_source(t.as_str()) {
                Ok(s) => Ok(s.as_str().as_bytes_vec()),
                Err(e) => Err(e),
            },
            RawSource::Bytes(_) => {
                proof {
                    assert(false);
                }
                Ok(Vec::new())
            },
        },
        SourceKind::Other => match raw {
            RawSource::Bytes(v) => Ok(v.clone()),
            RawSource::Text(_) => {
                proof {
                    assert(false);
                }
                Ok(Vec::new())
            },
        },
    }
}

} // verus!
