//! The body of a request that creates or updates a post: YAML front matter,
//! then Markdown.

use vstd::prelude::*;
use crate::metadata::{Metadata, MetadataView, ParseMetadataError, yaml_metadata};
use crate::yaml::{load_yaml, yaml_documents};

verus! {

/// How `matter::matter` splits a text into its front matter and the content
/// after it, each trimmed; `None` when the text opens with no front matter.
pub uninterp spec fn front_matter_split(input: Seq<char>) -> Option<(Seq<char>, Seq<char>)>;

/// The HTML that `pulldown_cmark` renders for a Markdown text with all of its
/// extensions on.
pub uninterp spec fn markdown_html(markdown: Seq<char>) -> Seq<char>;

/// `matter::matter`: the front matter (between `---` lines, or `+++` lines)
/// and the rest. The result is named; the regular expressions of its source
/// decide it.
#[verifier::external_body]
pub(crate) fn split_front_matter(input: &str) -> (r: Option<(String, String)>)
    ensures
        match r {
            Some((front, content)) => front_matter_split(input@) == Some((front@, content@)),
            None => front_matter_split(input@) is None,
        },
{
    matter::matter(input)
}

/// `pulldown_cmark::html::push_html` of `Parser::new_ext(markdown,
/// Options::all())` into an empty string. The result is named.
#[verifier::external_body]
fn render_markdown(markdown: &str) -> (r: String)
    ensures
        r@ == markdown_html(markdown@),
{
    let parser = pulldown_cmark::Parser::new_ext(markdown, pulldown_cmark::Options::all());
    let mut html = String::new();
    pulldown_cmark::html::push_html(&mut html, parser);
    html
}

/// Why a request body does not describe a post.
#[derive(Debug, PartialEq, Eq, Structural)]
pub enum PostBodyError {
    /// The body does not open with front matter.
    MissingFrontMatter,
    /// The front matter is not YAML.
    InvalidYaml,
    /// The front matter holds no YAML document.
    NoYamlDocument,
    /// The first document does not describe a post.
    Metadata(ParseMetadataError),
}

/// What a request body says: the metadata that the first document of its
/// front matter gives, and its content rendered to HTML.
pub open spec fn post_body(body: Seq<char>) -> Result<(MetadataView, Seq<char>), PostBodyError> {
    match front_matter_split(body) {
        None => Err(PostBodyError::MissingFrontMatter),
        Some((front, content)) => match yaml_documents(front) {
            None => Err(PostBodyError::InvalidYaml),
            Some(docs) => if docs.len() == 0 {
                Err(PostBodyError::NoYamlDocument)
            } else {
                match yaml_metadata(docs[0]) {
                    Err(e) => Err(PostBodyError::Metadata(e)),
                    Ok(meta) => Ok((meta, markdown_html(content))),
                }
            },
        },
    }
}

/// What keeps a body from opening with a YAML document: no front matter,
/// front matter that is not YAML, or YAML with no document; `None` when the
/// body opens with one (whether or not that document describes a post).
pub open spec fn framing_error(body: Seq<char>) -> Option<PostBodyError> {
    match post_body(body) {
        Ok(_) => None,
        Err(PostBodyError::Metadata(_)) => None,
        Err(e) => Some(e),
    }
}

/// Whether a body opens with a YAML document, and if not, why.
pub fn check_framing(body: &str) -> (r: Option<PostBodyError>)
    ensures
        r == framing_error(body@),
{
    let (yaml, _markdown) = match split_front_matter(body) {
        Some(parts) => parts,
        None => return Some(PostBodyError::MissingFrontMatter),
    };
    match load_yaml(yaml.as_str()) {
        Some(docs) => if docs.len() == 0 {
            Some(PostBodyError::NoYamlDocument)
        } else {
            None
        },
        None => Some(PostBodyError::InvalidYaml),
    }
}

/// The metadata and HTML of a request body whose front matter is YAML with
/// a document; `None` when that document does not describe a post.
pub fn parse_post_body(body: &str) -> (r: Option<(Metadata, String)>)
    requires
        post_body(body@) is Ok || post_body(body@) matches Err(PostBodyError::Metadata(_)),
    ensures
        match post_body(body@) {
            Ok((meta, html)) => r matches Some((m, h)) && m@ == meta && h@ == html,
            _ => r is None,
        },
{
    let (yaml, markdown) = split_front_matter(body).unwrap();
    let docs = load_yaml(yaml.as_str()).unwrap();
    // the first (and only) document
    let meta = match Metadata::parse_from_yaml(&docs[0]) {
        Ok(meta) => meta,
        Err(_) => return None,
    };
    let html = render_markdown(markdown.as_str());
    Some((meta, html))
}

/// The metadata and HTML of a request body, or why it describes no post.
pub fn read_post_body(body: &str) -> (r: Result<(Metadata, String), PostBodyError>)
    ensures
        match post_body(body@) {
            Ok((meta, html)) => r matches Ok((m, h)) && m@ == meta && h@ == html,
            Err(e) => r matches Err(e2) && e2 == e,
        },
{
    let (yaml, _markdown) = match split_front_matter(body) {
        Some(parts) => parts,
        None => return Err(PostBodyError::MissingFrontMatter),
    };
    let docs = match load_yaml(yaml.as_str()) {
        Some(docs) => docs,
        None => return Err(PostBodyError::InvalidYaml),
    };
    if docs.len() == 0 {
        return Err(PostBodyError::NoYamlDocument);
    }
    match Metadata::parse_from_yaml(&docs[0]) {
        Err(e) => Err(PostBodyError::Metadata(e)),
        Ok(_) => Ok(parse_post_body(body).unwrap()),
    }
}

} // verus!
