//! Media type classification: a fixed, total table from supported source
//! extensions to the media type the host server must answer with. An
//! extension outside the table fails the build.

use vstd::prelude::*;
use vstd::string::StringExecFns;

verus! {

/// The media types the classifier can produce.
#[derive(Clone, Copy, Debug, PartialEq, Eq, Structural)]
#[verifier::ext_equal]
pub enum MediaType {
    TextHtmlUtf8,
    TextCss,
    ApplicationPkixCert,
    ApplicationOctetStream,
    ApplicationPgpKeys,
    ImageVndMicrosoftIcon,
    ApplicationJson,
    TextPlain,
    ImagePng,
}

/// The classifier table: the media type for a source extension, or `None`
/// for an extension the build must reject. A file without an extension is
/// served as an opaque byte stream.
pub open spec fn media_type_of(ext: Option<Seq<char>>) -> Option<MediaType> {
    match ext {
        None => Some(MediaType::ApplicationOctetStream),
        Some(e) => if e == "html"@ || e == "dj"@ {
            Some(MediaType::TextHtmlUtf8)
        } else if e == "css"@ {
            Some(MediaType::TextCss)
        } else if e == "cer"@ {
            Some(MediaType::ApplicationPkixCert)
        } else if e == "der"@ {
            Some(MediaType::ApplicationOctetStream)
        } else if e == "gpg"@ {
            Some(MediaType::ApplicationPgpKeys)
        } else if e == "ico"@ {
            Some(MediaType::ImageVndMicrosoftIcon)
        } else if e == "js"@ {
            Some(MediaType::ApplicationJson)
        } else if e == "pem"@ {
            Some(MediaType::TextPlain)
        } else if e == "pkbf"@ {
            Some(MediaType::ApplicationOctetStream)
        } else if e == "png"@ {
            Some(MediaType::ImagePng)
        } else if e == "txt"@ {
            Some(MediaType::TextPlain)
        } else {
            None
        },
    }
}

/// The header value a media type is written as.
pub open spec fn media_type_text(m: MediaType) -> Seq<char> {
    match m {
        MediaType::TextHtmlUtf8 => "text/html; charset=utf-8"@,
        MediaType::TextCss => "text/css"@,
        MediaType::ApplicationPkixCert => "application/pkix-cert"@,
        MediaType::ApplicationOctetStream => "application/octet-stream"@,
        MediaType::ApplicationPgpKeys => "application/pgp-keys"@,
        MediaType::ImageVndMicrosoftIcon => "image/vnd.microsoft.icon"@,
        MediaType::ApplicationJson => "application/json"@,
        MediaType::TextPlain => "text/plain"@,
        MediaType::ImagePng => "image/png"@,
    }
}

impl MediaType {
    /// Computes `media_type_text`.
    pub fn as_text(&self) -> (r: String)
        ensures
            r@ == media_type_text(*self),
    {
        match self {
            MediaType::TextHtmlUtf8 => String::from_str("text/html; charset=utf-8"),
            MediaType::TextCss => String::from_str("text/css"),
            MediaType::ApplicationPkixCert => String::from_str("application/pkix-cert"),
            MediaType::ApplicationOctetStream => String::from_str("application/octet-stream"),
            MediaType::ApplicationPgpKeys => String::from_str("application/pgp-keys"),
            MediaType::ImageVndMicrosoftIcon => String::from_str("image/vnd.microsoft.icon"),
            MediaType::ApplicationJson => String::from_str("application/json"),
            MediaType::TextPlain => String::from_str("text/plain"),
            MediaType::ImagePng => String::from_str("image/png"),
        }
    }
}

/// Computes the classifier table over an optional extension string.
pub fn classify_extension(ext: &Option<String>) -> (r: Option<MediaType>)
    ensures
        r == media_type_of(match *ext {
            Some(ref e) => Some(e@),
            None => None::<Seq<char>>,
        }),
{
    match ext {
        None => Some(MediaType::ApplicationOctetStream),
        Some(e) => {
            let s = e.as_str();
            if crate::strutil::str_eq(s, "html") || crate::strutil::str_eq(s, "dj") {
                Some(MediaType::TextHtmlUtf8)
            } else if crate::strutil::str_eq(s, "css") {
                Some(MediaType::TextCss)
            } else if crate::strutil::str_eq(s, "cer") {
                Some(MediaType::ApplicationPkixCert)
            } else if crate::strutil::str_eq(s, "der") {
                Some(MediaType::ApplicationOctetStream)
            } else if crate::strutil::str_eq(s, "gpg") {
                Some(MediaType::ApplicationPgpKeys)
            } else if crate::strutil::str_eq(s, "ico") {
                Some(MediaType::ImageVndMicrosoftIcon)
            } else if crate::strutil::str_eq(s, "js") {
                Some(MediaType::ApplicationJson)
            } else if crate::strutil::str_eq(s, "pem") {
                Some(MediaType::TextPlain)
            } else if crate::strutil::str_eq(s, "pkbf") {
                Some(MediaType::ApplicationOctetStream)
            } else if crate::strutil::str_eq(s, "png") {
                Some(MediaType::ImagePng)
            } else if crate::strutil::str_eq(s, "txt") {
                Some(MediaType::TextPlain)
            } else {
                None
            }
        },
    }
}

/// The classifier is stable: it is a function of the extension alone, so two
/// calls on equal extensions give equal media types; and it is total on the
/// supported extensions of the table.
pub proof fn lemma_classifier_stable(e1: Option<Seq<char>>, e2: Option<Seq<char>>)
    ensures
        e1 == e2 ==> media_type_of(e1) == media_type_of(e2),
        media_type_of(None::<Seq<char>>) is Some,
        forall|e: Seq<char>|
            (e == "html"@ || e == "dj"@ || e == "css"@ || e == "cer"@ || e == "der"@
                || e == "gpg"@ || e == "ico"@ || e == "js"@ || e == "pem"@ || e == "pkbf"@
                || e == "png"@ || e == "txt"@) ==> #[trigger] media_type_of(Some(e)) is Some,
{
}

} // verus!
