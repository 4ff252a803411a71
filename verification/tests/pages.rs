use blog::auth::{is_authorized, CreatePostHeader, CreatePostSecret};
use blog::cors::is_allowed_origin;
use blog::date::Date;
use blog::post_info::PostInfo;
use blog::route::{
    asks_for_more, encode_route, link_style, needs_list_body, next_page_query,
    post_content_key, post_href, LinkStyle, Order,
};
use blog::title::{format_title, Javascript, Title};

fn date(y: i32, m: u32, d: u32) -> Date {
    Date::from_ymd_opt(y, m, d).unwrap()
}

#[test]
fn titles() {
    assert_eq!(format_title(Title::Top), "Joe's Blog");
    assert_eq!(format_title(Title::Child("About")), "Joe's Blog - About");
    assert_eq!(format_title(Title::Blog("Supported Markdown Syntax")), "Supported Markdown Syntax");
    assert_eq!(format_title(Title::Child("")), "Joe's Blog - ");
}

#[test]
fn javascript_keeps_its_source() {
    let js = Javascript::new("toggleTheme()");
    assert_eq!(js.source(), "toggleTheme()");
}

#[test]
fn authorization_compares_bytes() {
    let ok = |k: &[u8], s: &str| {
        is_authorized(CreatePostHeader(k.to_vec()), CreatePostSecret(s.to_string()))
    };
    assert!(ok(b"secret", "secret"));
    assert!(!ok(b"secreT", "secret"));
    assert!(!ok(b"secret ", "secret"));
    assert!(!ok(b"", "secret"));
    assert!(ok(b"", ""));
    assert!(ok(&[0xC3, 0xA9], "\u{e9}"));
    assert!(!ok(&[0xE9], "\u{e9}"));
}

#[test]
fn routes_and_links() {
    let d = date(2025, 4, 13);
    assert_eq!(encode_route(&d, "hello"), "2025/04/13/hello");
    assert_eq!(post_href(&d, "hello", LinkStyle::Relative), "/post/2025/04/13/hello");
    assert_eq!(
        post_href(&d, "hello", LinkStyle::Absolute),
        "https://blog.joeloach.co.uk/post/2025/04/13/hello"
    );
    assert_eq!(LinkStyle::Relative.base(), "");
    assert_eq!(LinkStyle::Absolute.base(), "https://blog.joeloach.co.uk");
    let info = PostInfo { title: "hello".to_string(), date: date(5, 6, 7) };
    assert_eq!(info.href(LinkStyle::Relative), "/post/read/0005/06/07/hello");
    assert_eq!(
        info.href(LinkStyle::Absolute),
        "https://blog.joeloach.co.uk/post/read/0005/06/07/hello"
    );
}

#[test]
fn cross_origin_pages_link_absolutely() {
    assert!(link_style(true) == LinkStyle::Absolute);
    assert!(link_style(false) == LinkStyle::Relative);
    let _orders = [Order::Ascending, Order::Descending];
}

#[test]
fn pagination() {
    // a cut-short listing asks for the page after it, with its own cursor
    assert_eq!(next_page_query(true, Some("next-cursor")), Some("?token=next-cursor".to_string()));
    // the last page asks for nothing more
    assert_eq!(next_page_query(false, None), None);
    assert_eq!(next_page_query(false, Some("stale")), None);
    assert_eq!(next_page_query(true, None), None);
    assert!(asks_for_more(2, 3, true));
    assert!(!asks_for_more(1, 3, true));
    assert!(!asks_for_more(2, 3, false));
    assert!(asks_for_more(0, 1, true));
    assert!(needs_list_body(None));
    assert!(!needs_list_body(Some("abc")));
}

#[test]
fn object_metadata() {
    let entries = vec![
        ("date".to_string(), "2025-04-13".to_string()),
        ("title".to_string(), "Hello".to_string()),
    ];
    let info = PostInfo::from_object(entries.clone());
    assert_eq!(info.title, "Hello");
    assert_eq!((info.date.year(), info.date.month(), info.date.day()), (2025, 4, 13));
    let info = PostInfo::read_object(entries).unwrap();
    assert_eq!(info.title, "Hello");
}

#[test]
fn object_metadata_without_title_or_date() {
    let no_title = vec![("date".to_string(), "2025-04-13".to_string())];
    assert!(PostInfo::read_object(no_title).is_none());
    let no_date = vec![("title".to_string(), "Hello".to_string())];
    assert!(PostInfo::read_object(no_date).is_none());
    let bad_date = vec![
        ("title".to_string(), "Hello".to_string()),
        ("date".to_string(), "April".to_string()),
    ];
    assert!(PostInfo::read_object(bad_date).is_none());
}

#[test]
fn origins_on_the_site_are_allowed() {
    assert!(is_allowed_origin(b"https://joeloach.co.uk"));
    assert!(is_allowed_origin(b"https://blog.joeloach.co.uk"));
    assert!(is_allowed_origin(b"http://a.b.joeloach.co.uk"));
    assert!(is_allowed_origin(b"https://joeloach.co.uk:8443"));
    assert!(is_allowed_origin(b"http://blog.joeloach.co.uk:8080"));
}

#[test]
fn origins_off_the_site_are_refused() {
    assert!(!is_allowed_origin(b"https://example.com"));
    assert!(!is_allowed_origin(b"https://evil-joeloach.co.uk"));
    assert!(!is_allowed_origin(b"https://evil-joeloach.co.uk:443"));
    assert!(!is_allowed_origin(b"https://joeloach.co.uk.example.com"));
    assert!(!is_allowed_origin(b"https://example.com/.joeloach.co.uk"));
    assert!(!is_allowed_origin(b"https://example.com:1.joeloach.co.uk"));
    assert!(!is_allowed_origin(b"https://oach.co.uk"));
}

#[test]
fn origins_without_a_host_are_refused() {
    assert!(!is_allowed_origin(b"null"));
    assert!(!is_allowed_origin(b"joeloach.co.uk"));
    assert!(!is_allowed_origin(b"https://"));
    assert!(!is_allowed_origin(b""));
}

#[test]
fn link_segments_read_back_to_the_key() {
    let d = Date::from_ymd_opt(2025, 4, 13).unwrap();
    let href = post_href(&d, "hello", LinkStyle::Relative);
    let segments: Vec<&str> = href.split('/').collect();
    assert_eq!(segments, vec!["", "post", "2025", "04", "13", "hello"]);
    let y: u32 = segments[2].parse().unwrap();
    let m: u32 = segments[3].parse().unwrap();
    let day: u32 = segments[4].parse().unwrap();
    assert_eq!(
        post_content_key(y, m, day, segments[5]),
        Some(blog::key::encode_key(&d, "hello"))
    );
    let early = Date::from_ymd_opt(5, 1, 2).unwrap();
    let href = post_href(&early, "x", LinkStyle::Absolute);
    assert_eq!(href, "https://blog.joeloach.co.uk/post/0005/01/02/x");
}
