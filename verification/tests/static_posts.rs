use blog::date::Date;
use blog::metadata::Metadata;
use blog::static_post::{build_post_page, posts_table};

const POST: &str = "---\ntitle: Supported Markdown Syntax\ndate: 2025-04-13\n---\n\n# Hi\n\nSome *text* and ~~gone~~.\n";

#[test]
fn post_file_becomes_a_page() {
    let (path, html, meta) = build_post_page(POST).unwrap();
    assert_eq!(path, "/posts/2025/04/13/supported markdown syntax.html");
    // default options: no strikethrough
    assert_eq!(html, "<h1>Hi</h1>\n<p>Some <em>text</em> and ~~gone~~.</p>\n");
    assert_eq!(meta.title, "Supported Markdown Syntax");
    assert_eq!((meta.date.year(), meta.date.month(), meta.date.day()), (2025, 4, 13));
}

#[test]
fn page_paths_of_early_years_are_padded() {
    let (path, _, _) = build_post_page("---\ntitle: ÀB\ndate: 0005-01-02\n---\nx\n").unwrap();
    assert_eq!(path, "/posts/0005/01/02/àb.html");
}

#[test]
fn post_files_that_describe_no_post() {
    assert!(build_post_page("no front matter").is_none());
    assert!(build_post_page("---\ntitle: [unclosed\n---\nx\n").is_none());
    assert!(build_post_page("---\n---\nx\n").is_none());
    assert!(build_post_page("---\ndate: 2025-04-13\n---\nx\n").is_none());
    assert!(build_post_page("---\ntitle: T\ndate: 13/04/2025\n---\nx\n").is_none());
    assert!(build_post_page("---\ntitle: T\n---\nx\n").is_none());
}

fn meta(title: &str, y: i32, m: u32, d: u32) -> Metadata {
    Metadata { title: title.to_string(), date: Date::from_ymd_opt(y, m, d).unwrap(), tags: vec![] }
}

#[test]
fn table_of_all_posts() {
    assert_eq!(posts_table(&vec![]), "#[allow(unused)] static ALL_POSTS: &[Post] = &[];");
    let posts = vec![
        (meta("A", 2025, 4, 13), "/posts/2025/04/13/a.html".to_string()),
        (meta("B", 10000, 1, 2), "/posts/+10000/01/02/b.html".to_string()),
    ];
    assert_eq!(
        posts_table(&posts),
        "#[allow(unused)] static ALL_POSTS: &[Post] = &[\
         Post { date: \"2025-04-13\", title: \"A\", page: \"/posts/2025/04/13/a.html\" }, \
         Post { date: \"+10000-01-02\", title: \"B\", page: \"/posts/+10000/01/02/b.html\" }, ];"
    );
}
