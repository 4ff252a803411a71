use blog::auth::{CreatePostHeader, CreatePostSecret};
use blog::date::Date;
use blog::metadata::{Metadata, ParseMetadataError, Tag};
use blog::models::{self, Post, PostId};
use blog::post_body::{check_framing, parse_post_body, read_post_body, PostBodyError};
use blog::request::{accept_post, create_request, Refusal};
use blog::yaml::YamlNode;

fn text(s: &str) -> YamlNode {
    YamlNode::String(s.to_string())
}

fn hash(entries: Vec<(&str, YamlNode)>) -> YamlNode {
    YamlNode::Hash(entries.into_iter().map(|(k, v)| (text(k), v)).collect())
}

fn front(title: Option<YamlNode>, date: Option<YamlNode>, tags: Option<YamlNode>) -> YamlNode {
    let mut entries = Vec::new();
    if let Some(t) = title {
        entries.push(("title", t));
    }
    if let Some(d) = date {
        entries.push(("date", d));
    }
    if let Some(t) = tags {
        entries.push(("tags", t));
    }
    hash(entries)
}

fn tag_texts(meta: &Metadata) -> Vec<String> {
    meta.tags.iter().map(|t| t.0.clone()).collect()
}

#[test]
fn yaml_lookups() {
    let d = hash(vec![("title", text("Hello")), ("count", YamlNode::Integer(3))]);
    assert_eq!(d.get("title").and_then(|n| n.as_str()), Some("Hello"));
    assert!(d.get("count").unwrap().as_str().is_none());
    assert!(d.get("missing").is_none());
    let list = YamlNode::Array(vec![text("a"), text("b")]);
    assert!(list.get("title").is_none());
    assert!(list.as_str().is_none());
    // a non-string key never matches
    let d = YamlNode::Hash(vec![(YamlNode::Integer(1), text("one"))]);
    assert!(d.get("1").is_none());
    // the first entry under a key answers
    let d = hash(vec![("k", text("first")), ("k", text("second"))]);
    assert_eq!(d.get("k").and_then(|n| n.as_str()), Some("first"));
}

#[test]
fn metadata_from_front_matter() {
    let d = front(
        Some(text("Hello")),
        Some(text("2025-04-13")),
        Some(YamlNode::Array(vec![text("rust"), YamlNode::Integer(3), text("web")])),
    );
    let meta = Metadata::parse_from_yaml(&d).unwrap();
    assert_eq!(meta.title, "Hello");
    assert_eq!((meta.date.year(), meta.date.month(), meta.date.day()), (2025, 4, 13));
    assert_eq!(tag_texts(&meta), vec!["rust".to_string(), "web".to_string()]);
}

#[test]
fn tags_that_are_no_list_are_none() {
    let d = front(Some(text("Hello")), Some(text("2025-04-13")), Some(text("rust")));
    assert!(Metadata::parse_from_yaml(&d).unwrap().tags.is_empty());
    let d = front(Some(text("Hello")), Some(text("2025-04-13")), None);
    assert!(Metadata::parse_from_yaml(&d).unwrap().tags.is_empty());
}

#[test]
fn metadata_errors() {
    let err = |d: YamlNode| Metadata::parse_from_yaml(&d).err().unwrap();
    assert_eq!(err(front(None, Some(text("2025-04-13")), None)), ParseMetadataError::Title);
    assert_eq!(
        err(front(Some(YamlNode::Integer(5)), Some(text("2025-04-13")), None)),
        ParseMetadataError::Title
    );
    assert_eq!(err(front(Some(text("Hello")), None, None)), ParseMetadataError::Date);
    assert_eq!(
        err(front(Some(text("Hello")), Some(text("13/04/2025")), None)),
        ParseMetadataError::Date
    );
    assert_eq!(
        err(front(Some(text("Hello")), Some(text("2025-02-30")), None)),
        ParseMetadataError::Date
    );
    assert_eq!(
        err(front(Some(text("Hello")), Some(YamlNode::Null), None)),
        ParseMetadataError::Date
    );
    assert_eq!(err(YamlNode::Array(vec![text("a")])), ParseMetadataError::Title);
}

#[test]
fn stored_metadata_reads_back() {
    let meta = Metadata {
        title: "Hello".to_string(),
        date: Date::from_ymd_opt(2025, 4, 13).unwrap(),
        tags: vec![Tag("rust".to_string()), Tag("web".to_string())],
    };
    let model = meta.into_model("the-key".to_string());
    assert_eq!(model.title, "Hello");
    assert_eq!(model.date, "2025-04-13");
    assert_eq!(model.key, "the-key");
    assert_eq!(model.tags, vec!["rust".to_string(), "web".to_string()]);
    let back = Metadata::from_post(Post { id: PostId(7), meta: model });
    assert_eq!(back.title, "Hello");
    assert_eq!((back.date.year(), back.date.month(), back.date.day()), (2025, 4, 13));
    assert_eq!(tag_texts(&back), vec!["rust".to_string(), "web".to_string()]);
}

#[test]
fn stored_metadata_with_a_bad_date() {
    let model = models::Metadata {
        title: "Hello".to_string(),
        date: "yesterday".to_string(),
        key: "k".to_string(),
        tags: vec![],
    };
    assert!(Metadata::try_from_post(Post { id: PostId(1), meta: model }).is_none());
}

const BODY: &str = "---\ntitle: Hello\ndate: 2025-04-13\ntags:\n  - rust\n---\n# Hi\n\nSome *text*.\n";

#[test]
fn post_body_gives_metadata_and_html() {
    let (meta, html) = parse_post_body(BODY).unwrap();
    assert_eq!(meta.title, "Hello");
    assert_eq!(tag_texts(&meta), vec!["rust".to_string()]);
    assert_eq!(html, "<h1>Hi</h1>\n<p>Some <em>text</em>.</p>\n");
    let (meta, html2) = read_post_body(BODY).unwrap();
    assert_eq!(meta.title, "Hello");
    assert_eq!(html2, html);
}

#[test]
fn post_body_reads_the_yaml_front_matter() {
    let body = "---\ntitle: Hello\ndate: 2025-04-13\ntags:\n  - rust\n  - 3\n  - web\n---\ntext\n";
    let (meta, html) = read_post_body(body).unwrap();
    assert_eq!(meta.title, "Hello");
    assert_eq!((meta.date.year(), meta.date.month(), meta.date.day()), (2025, 4, 13));
    // the integer item is no tag
    assert_eq!(tag_texts(&meta), vec!["rust".to_string(), "web".to_string()]);
    assert_eq!(html, "<p>text</p>\n");
    let body = "---\ntitle: Hello\ndate: 2025-04-13\ntags: rust\n---\n";
    let (meta, html) = read_post_body(body).unwrap();
    assert!(meta.tags.is_empty());
    assert_eq!(html, "");
}

#[test]
fn post_body_with_bad_metadata_is_none() {
    assert!(parse_post_body("---\ndate: 2025-04-13\n---\nbody\n").is_none());
}

#[test]
fn post_body_errors() {
    let err = |b: &str| read_post_body(b).err().unwrap();
    assert_eq!(err("no front matter here"), PostBodyError::MissingFrontMatter);
    assert_eq!(err("---\ntitle: [unclosed\n---\nbody\n"), PostBodyError::InvalidYaml);
    assert_eq!(err("---\n---\nbody\n"), PostBodyError::NoYamlDocument);
    assert_eq!(
        err("---\ndate: 2025-04-13\n---\nbody\n"),
        PostBodyError::Metadata(ParseMetadataError::Title)
    );
}

fn request(key: &[u8], body: &str) -> Result<(Metadata, String), Refusal> {
    accept_post(
        CreatePostHeader(key.to_vec()),
        CreatePostSecret("secret".to_string()),
        body,
    )
}

#[test]
fn refused_requests() {
    assert_eq!(request(b"wrong", BODY).err(), Some(Refusal::Unauthorized));
    assert_eq!(request(b"wrong", "garbage").err(), Some(Refusal::Unauthorized));
    assert_eq!(
        request(b"secret", "---\ntitle: Hello\n---\nbody\n").err(),
        Some(Refusal::BadRequest)
    );
    assert_eq!(
        request(b"secret", "garbage").err(),
        Some(Refusal::Malformed(PostBodyError::MissingFrontMatter))
    );
}

#[test]
fn accepted_request() {
    let (meta, html) = request(b"secret", BODY).unwrap();
    assert_eq!(meta.title, "Hello");
    assert_eq!(html, "<h1>Hi</h1>\n<p>Some <em>text</em>.</p>\n");
}

#[test]
fn framing_of_bodies() {
    assert_eq!(check_framing(BODY), None);
    // a document that is no post is still framed
    assert_eq!(check_framing("---\ndate: 2025-04-13\n---\nbody\n"), None);
    assert_eq!(check_framing("no front matter here"), Some(PostBodyError::MissingFrontMatter));
    assert_eq!(check_framing("---\ntitle: [unclosed\n---\nbody\n"), Some(PostBodyError::InvalidYaml));
    assert_eq!(check_framing("---\n---\nbody\n"), Some(PostBodyError::NoYamlDocument));
}

fn create(key: &[u8], body: &str) -> Result<(Metadata, String), Refusal> {
    create_request(
        CreatePostHeader(key.to_vec()),
        CreatePostSecret("secret".to_string()),
        body,
    )
}

#[test]
fn create_requests() {
    let (meta, html) = create(b"secret", BODY).unwrap();
    assert_eq!(meta.title, "Hello");
    assert_eq!(html, "<h1>Hi</h1>\n<p>Some <em>text</em>.</p>\n");
    assert_eq!(
        create(b"secret", "---\ntitle: Hello\n---\nbody\n").err(),
        Some(Refusal::BadRequest)
    );
    // a wrong key is refused before the body is looked at, whatever it holds
    assert_eq!(create(b"wrong", "garbage").err(), Some(Refusal::Unauthorized));
}
