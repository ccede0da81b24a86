//! The retrieval policy: given a blob's content and the extension the caller
//! asked for, decide the response shape. Content that decodes as text is a
//! redirect when it looks like a stored URL, plain text when no rendering
//! extension was given, and otherwise a minimal HTML document with a
//! highlighted code block. Content that is not text is streamed back raw
//! under a content type guessed from the extension. URL detection takes
//! priority over highlighting: a stored URL is never highlighted.

use vstd::prelude::*;

use crate::text::first_pos;
use crate::text::lemma_first_pos;
use crate::text::find_char;
use crate::text::starts_with_chars;
use crate::text::starts_with_str;

verus! {

/// The response shape for a blob that decodes as text.
pub enum Rendering {
    /// The stored text is a URL: answer with a temporary redirect to it,
    /// exactly as stored, no normalization.
    Redirect { location: String },
    /// Return the decoded text verbatim as plain text.
    Plain,
    /// Wrap the text in an HTML document with a highlighted code block.
    Highlighted { document: String },
}

/// A stored text is treated as a URL when it begins with "http" and holds no
/// space and no newline.
pub open spec fn is_url_like(s: Seq<char>) -> bool {
    starts_with_chars(s, "http"@) && forall|i: int|
        0 <= i < s.len() ==> s[i] != ' ' && #[trigger] s[i] != '\n'
}

/// An extension that asks for no highlighting: none at all, or the
/// raw-content suffix itself.
pub open spec fn plain_ext(e: Option<Seq<char>>) -> bool {
    e is None || e == Some("txt"@)
}

/// The HTML document that embeds `content` verbatim in a code block tagged
/// with `ext` as its language class, referencing the highlight.js stylesheet
/// and script pair for `theme`.
pub open spec fn html_doc(theme: Seq<char>, ext: Seq<char>, content: Seq<char>) -> Seq<char> {
    "<head>\n    <link rel=\"stylesheet\" href=\"https://cdn.jsdelivr.net/gh/highlightjs/cdn-release@11.9.0/build/styles/"@
        + theme
        + ".css\">\n    <script src=\"https://cdn.jsdelivr.net/gh/highlightjs/cdn-release@11.9.0/build/highlight.min.js\"></script>\n    <script>hljs.highlightAll();</script>\n</head>\n<body>\n<pre><code class=\""@
        + ext + "\">"@ + content + "</code></pre>\n</body>\n"@
}

/// Builds the highlighted HTML document.
pub fn render_html(theme: &str, ext: &str, content: &str) -> (r: String)
    ensures
        r@ == html_doc(theme@, ext@, content@),
{
    let r = String::from_str(
        "<head>\n    <link rel=\"stylesheet\" href=\"https://cdn.jsdelivr.net/gh/highlightjs/cdn-release@11.9.0/build/styles/",
    ).concat(theme).concat(
        ".css\">\n    <script src=\"https://cdn.jsdelivr.net/gh/highlightjs/cdn-release@11.9.0/build/highlight.min.js\"></script>\n    <script>hljs.highlightAll();</script>\n</head>\n<body>\n<pre><code class=\"",
    ).concat(ext).concat("\">").concat(content).concat("</code></pre>\n</body>\n");
    proof {
        assert(r@ =~= html_doc(theme@, ext@, content@));
    }
    r
}

/// Decides whether a text is a stored URL.
pub fn looks_like_url(content: &str) -> (b: bool)
    ensures
        b == is_url_like(content@),
{
    if !starts_with_str(content, "http") {
        return false;
    }
    let n: usize = content.unicode_len();
    let sp: usize = find_char(content, ' ');
    let nl: usize = find_char(content, '\n');
    proof {
        lemma_first_pos(content@, ' ');
        lemma_first_pos(content@, '\n');
    }
    sp == n && nl == n
}

impl Rendering {
    /// This decision is a temporary redirect to exactly `loc`.
    pub open spec fn is_redirect_to(&self, loc: Seq<char>) -> bool {
        match self {
            Rendering::Redirect { location } => location@ == loc,
            _ => false,
        }
    }

    /// This decision returns the text verbatim as plain text.
    pub open spec fn is_plain(&self) -> bool {
        self is Plain
    }

    /// This decision answers with exactly the HTML document `doc`.
    pub open spec fn is_document(&self, doc: Seq<char>) -> bool {
        match self {
            Rendering::Highlighted { document } => document@ == doc,
            _ => false,
        }
    }
}

/// Decides the response shape for text content. The URL test wins over
/// highlighting, the location of a redirect is the stored text exactly, and
/// the highlighted document embeds the text verbatim.
pub fn resolve_text(content: &str, ext: &Option<String>, theme: &str) -> (r: Rendering)
    ensures
        is_url_like(content@) ==> r.is_redirect_to(content@),
        !is_url_like(content@) && plain_ext(ext.deep_view()) ==> r.is_plain(),
        !is_url_like(content@) && !plain_ext(ext.deep_view()) ==> r.is_document(
            html_doc(theme@, ext.deep_view()->Some_0, content@),
        ),
{
    if looks_like_url(content) {
        Rendering::Redirect { location: String::from_str(content) }
    } else {
        match ext {
            Option::None => Rendering::Plain,
            Option::Some(e) => {
                let txt = String::from_str("txt");
                if *e == txt {
                    Rendering::Plain
                } else {
                    Rendering::Highlighted { document: render_html(theme, e.as_str(), content) }
                }
            },
        }
    }
}

/// The content type under which a blob that is not text is streamed back:
/// guessed from the requested extension, the generic octet stream by default.
pub uninterp spec fn mime_for_ext(ext: Seq<char>) -> Seq<char>;

/// Relies on mime_guess::from_ext and MimeGuess::first_or_octet_stream: the
/// guessed content type is a fixed table lookup on the extension alone, with
/// application/octet-stream when the table has no entry; an empty extension
/// always falls through to that default.
#[verifier::external_body]
fn guess_mime(ext: &str) -> (r: String)
    ensures
        r@ == mime_for_ext(ext@),
        ext@.len() == 0 ==> r@ == "application/octet-stream"@,
{
    mime_guess::from_ext(ext).first_or_octet_stream().to_string()
}

/// The content type for streaming a binary blob, from the requested
/// extension; a missing extension guesses like an empty one.
pub fn resolve_binary(ext: &Option<String>) -> (ct: String)
    ensures
        ct@ == mime_for_ext(
            match ext.deep_view() {
                Some(e) => e,
                None => ""@,
            },
        ),
        ext.deep_view() is None ==> ct@ == "application/octet-stream"@,
{
    match ext {
        Option::Some(e) => guess_mime(e.as_str()),
        Option::None => {
            proof {
                reveal_strlit("");
            }
            guess_mime("")
        },
    }
}

} // verus!
