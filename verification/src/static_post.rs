//! The static pages of the posts kept beside the site: each post file is
//! front matter and Markdown, rendered to an HTML page whose path follows
//! from its date and title, and listed in a generated table of all posts.

use vstd::prelude::*;
use crate::date::{
    date_text, is_valid_date, lemma_date_numerals_read_back, lemma_date_text_injective,
    two_digits, year_text, ymd_dash, ymd_slash,
};
use crate::text::{all_digits, digits_value};
use crate::metadata::{Metadata, MetadataView, yaml_metadata};
use crate::post_body::{front_matter_split, split_front_matter};
use crate::yaml::{load_yaml, yaml_documents};

verus! {

/// The HTML that `pulldown_cmark` renders for a Markdown text with its
/// default options (no extensions).
pub uninterp spec fn markdown_html_plain(markdown: Seq<char>) -> Seq<char>;

/// The lowercase form of a text, as `str::to_lowercase` gives it.
pub uninterp spec fn lowercase(s: Seq<char>) -> Seq<char>;

/// `pulldown_cmark::html::push_html` of `Parser::new(markdown)` into an
/// empty string. The result is named.
#[verifier::external_body]
fn render_markdown_plain(markdown: &str) -> (r: String)
    ensures
        r@ == markdown_html_plain(markdown@),
{
    let parser = pulldown_cmark::Parser::new(markdown);
    let mut html = String::new();
    pulldown_cmark::html::push_html(&mut html, parser);
    html
}

/// `str::to_lowercase`. The result is named.
#[verifier::external_body]
fn to_lowercase(s: &str) -> (r: String)
    ensures
        r@ == lowercase(s@),
{
    s.to_lowercase()
}

/// Where the page of a post is served: `/posts/YYYY/MM/DD/<title in
/// lowercase>.html`.
pub open spec fn page_path(meta: MetadataView) -> Seq<char> {
    "/posts/"@ + date_text(meta.date.0, meta.date.1, meta.date.2, '/') + "/"@ + lowercase(
        meta.title,
    ) + ".html"@
}

/// What a post file gives: the path of its page, the page's HTML (its
/// Markdown rendered with the default options) and its metadata; `None` when
/// it has no front matter, the front matter is no YAML with a document, or
/// the first document has no `title` string or no `date` string in
/// `YYYY-MM-DD`.
pub open spec fn static_post(text: Seq<char>) -> Option<(Seq<char>, Seq<char>, MetadataView)> {
    match front_matter_split(text) {
        None => None,
        Some((front, content)) => match yaml_documents(front) {
            None => None,
            Some(docs) => if docs.len() == 0 {
                None
            } else {
                match yaml_metadata(docs[0]) {
                    Err(_) => None,
                    Ok(meta) => Some((page_path(meta), markdown_html_plain(content), meta)),
                }
            },
        },
    }
}

/// The page of a post file: its path, its HTML and its metadata.
pub fn build_post_page(text: &str) -> (r: Option<(String, String, Metadata)>)
    ensures
        match static_post(text@) {
            Some((path, html, meta)) => r matches Some((p, h, m)) && p@ == path && h@ == html
                && m@ == meta,
            None => r is None,
        },
{
    let (front, content) = match split_front_matter(text) {
        Some(parts) => parts,
        None => return None,
    };
    let html = render_markdown_plain(content.as_str());
    let docs = match load_yaml(front.as_str()) {
        Some(docs) => docs,
        None => return None,
    };
    if docs.len() == 0 {
        return None;
    }
    let meta = match Metadata::parse_from_yaml(&docs[0]) {
        Ok(meta) => meta,
        Err(_) => return None,
    };
    let fmt = "%Y/%m/%d";
    proof {
        reveal_strlit("%Y/%m/%d");
        assert(fmt@ =~= ymd_slash());
    }
    let mut path = "/posts/".to_owned();
    let day = meta.date.format(fmt);
    path.append(day.as_str());
    path.append("/");
    let name = to_lowercase(meta.title.as_str());
    path.append(name.as_str());
    path.append(".html");
    proof {
        assert(path@ =~= page_path(meta@));
    }
    Some((path, html, meta))
}

/// The entry of the table of all posts for a post and its page.
pub open spec fn list_entry_text(meta: MetadataView, page: Seq<char>) -> Seq<char> {
    "Post { date: \""@ + date_text(meta.date.0, meta.date.1, meta.date.2, '-')
        + "\", title: \""@ + meta.title + "\", page: \""@ + page + "\" }, "@
}

/// The entries of the table for posts and their pages, in order.
pub open spec fn list_entries(posts: Seq<(Metadata, String)>) -> Seq<char>
    decreases posts.len(),
{
    if posts.len() == 0 {
        seq![]
    } else {
        list_entries(posts.drop_last()) + list_entry_text(posts.last().0@, posts.last().1@)
    }
}

/// The Rust source of the table of all posts.
pub open spec fn posts_table_text(posts: Seq<(Metadata, String)>) -> Seq<char> {
    "#[allow(unused)] static ALL_POSTS: &[Post] = &["@ + list_entries(posts) + "];"@
}

/// The Rust source of the table of all posts, each with its page.
pub fn posts_table(posts: &Vec<(Metadata, String)>) -> (r: String)
    ensures
        r@ == posts_table_text(posts@),
{
    let fmt = "%Y-%m-%d";
    proof {
        reveal_strlit("%Y-%m-%d");
        assert(fmt@ =~= ymd_dash());
    }
    let mut code = "#[allow(unused)] static ALL_POSTS: &[Post] = &[".to_owned();
    let ghost head = code@;
    let mut i: usize = 0;
    while i < posts.len()
        invariant
            0 <= i <= posts@.len(),
            fmt@ == ymd_dash(),
            head == "#[allow(unused)] static ALL_POSTS: &[Post] = &["@,
            code@ == head + list_entries(posts@.take(i as int)),
        decreases posts@.len() - i,
    {
        let (meta, page) = &posts[i];
        let day = meta.date.format(fmt);
        code.append("Post { date: \"");
        code.append(day.as_str());
        code.append("\", title: \"");
        code.append(meta.title.as_str());
        code.append("\", page: \"");
        code.append(page.as_str());
        code.append("\" }, ");
        proof {
            assert(posts@.take(i + 1).drop_last() =~= posts@.take(i as int));
            assert(posts@.take(i + 1).last() == posts@[i as int]);
            assert(code@ =~= head + list_entries(posts@.take(i + 1)));
        }
        i = i + 1;
    }
    code.append("];");
    proof {
        assert(posts@.take(posts@.len() as int) =~= posts@);
        assert(code@ =~= posts_table_text(posts@));
    }
    code
}

/// The page path of a post reads back to its day: for the years written
/// with four digits it is `/posts/`, then the year, month and day numerals
/// (digits only, separated by `/`) that denote the post's own year, month
/// and day, then `/`, the title in lowercase and `.html`.
pub proof fn lemma_page_path_reads_back(meta: MetadataView)
    requires
        is_valid_date(meta.date.0, meta.date.1, meta.date.2),
        0 <= meta.date.0 <= 9999,
    ensures
        page_path(meta).len() == 23 + lowercase(meta.title).len(),
        page_path(meta).subrange(0, 7) == "/posts/"@,
        all_digits(page_path(meta).subrange(7, 11)),
        digits_value(page_path(meta).subrange(7, 11)) == meta.date.0,
        page_path(meta)[11] == '/',
        all_digits(page_path(meta).subrange(12, 14)),
        digits_value(page_path(meta).subrange(12, 14)) == meta.date.1,
        page_path(meta)[14] == '/',
        all_digits(page_path(meta).subrange(15, 17)),
        digits_value(page_path(meta).subrange(15, 17)) == meta.date.2,
        page_path(meta)[17] == '/',
        page_path(meta).subrange(18, page_path(meta).len() - 5) == lowercase(meta.title),
        page_path(meta).subrange(page_path(meta).len() - 5, page_path(meta).len() as int)
            == ".html"@,
{
    reveal_strlit("/posts/");
    reveal_strlit("/");
    reveal_strlit(".html");
    let (y, m, d) = meta.date;
    lemma_date_numerals_read_back(y, m, d);
    let p = page_path(meta);
    let (yt, mt, dt) = (year_text(y), two_digits(m), two_digits(d));
    let l = lowercase(meta.title);
    assert(p =~= "/posts/"@ + yt + seq!['/'] + mt + seq!['/'] + dt + seq!['/'] + l + ".html"@);
    assert(p.subrange(0, 7) =~= "/posts/"@);
    assert(p.subrange(7, 11) =~= yt);
    assert(p.subrange(12, 14) =~= mt);
    assert(p.subrange(15, 17) =~= dt);
    assert(p.subrange(18, p.len() - 5) =~= l);
    assert(p.subrange(p.len() - 5, p.len() as int) =~= ".html"@);
}

/// A page path names one day: posts with the same title and the same page
/// path have the same date.
pub proof fn lemma_page_path_names_one_day(m1: MetadataView, m2: MetadataView)
    requires
        is_valid_date(m1.date.0, m1.date.1, m1.date.2),
        is_valid_date(m2.date.0, m2.date.1, m2.date.2),
        m1.title == m2.title,
        page_path(m1) == page_path(m2),
    ensures
        m1.date == m2.date,
{
    reveal_strlit("/posts/");
    let t1 = date_text(m1.date.0, m1.date.1, m1.date.2, '/');
    let t2 = date_text(m2.date.0, m2.date.1, m2.date.2, '/');
    let tail = "/"@ + lowercase(m1.title) + ".html"@;
    let p = page_path(m1);
    assert(p =~= "/posts/"@ + t1 + tail);
    assert(page_path(m2) =~= "/posts/"@ + t2 + tail);
    assert(t1 =~= p.subrange(7, 7 + t1.len() as int));
    assert(t2 =~= p.subrange(7, 7 + t2.len() as int));
    lemma_date_text_injective(m1.date.0, m1.date.1, m1.date.2, m2.date.0, m2.date.1, m2.date.2, '/');
}

/// A table entry reads back to its post's day: for the years written with
/// four digits it opens with `Post { date: "`, then the year, month and day
/// numerals (digits only, separated by `-`) that denote the post's own year,
/// month and day, and a closing `"`.
pub proof fn lemma_entry_date_reads_back(meta: MetadataView, page: Seq<char>)
    requires
        is_valid_date(meta.date.0, meta.date.1, meta.date.2),
        0 <= meta.date.0 <= 9999,
    ensures
        list_entry_text(meta, page).subrange(0, 14) == "Post { date: \""@,
        all_digits(list_entry_text(meta, page).subrange(14, 18)),
        digits_value(list_entry_text(meta, page).subrange(14, 18)) == meta.date.0,
        list_entry_text(meta, page)[18] == '-',
        all_digits(list_entry_text(meta, page).subrange(19, 21)),
        digits_value(list_entry_text(meta, page).subrange(19, 21)) == meta.date.1,
        list_entry_text(meta, page)[21] == '-',
        all_digits(list_entry_text(meta, page).subrange(22, 24)),
        digits_value(list_entry_text(meta, page).subrange(22, 24)) == meta.date.2,
        list_entry_text(meta, page)[24] == '"',
{
    reveal_strlit("Post { date: \"");
    reveal_strlit("\", title: \"");
    let (y, m, d) = meta.date;
    lemma_date_numerals_read_back(y, m, d);
    let e = list_entry_text(meta, page);
    let (yt, mt, dt) = (year_text(y), two_digits(m), two_digits(d));
    let rest = "\", title: \""@ + meta.title + "\", page: \""@ + page + "\" }, "@;
    assert(e =~= "Post { date: \""@ + yt + seq!['-'] + mt + seq!['-'] + dt + rest);
    assert(e.subrange(0, 14) =~= "Post { date: \""@);
    assert(e.subrange(14, 18) =~= yt);
    assert(e.subrange(19, 21) =~= mt);
    assert(e.subrange(22, 24) =~= dt);
    assert(e[24] == rest[0]);
}

/// A table entry names one day: entries of posts with the same title and
/// page that are equal are of the same date.
pub proof fn lemma_entry_names_one_day(
    m1: MetadataView,
    m2: MetadataView,
    page: Seq<char>,
)
    requires
        is_valid_date(m1.date.0, m1.date.1, m1.date.2),
        is_valid_date(m2.date.0, m2.date.1, m2.date.2),
        m1.title == m2.title,
        list_entry_text(m1, page) == list_entry_text(m2, page),
    ensures
        m1.date == m2.date,
{
    reveal_strlit("Post { date: \"");
    let t1 = date_text(m1.date.0, m1.date.1, m1.date.2, '-');
    let t2 = date_text(m2.date.0, m2.date.1, m2.date.2, '-');
    let rest = "\", title: \""@ + m1.title + "\", page: \""@ + page + "\" }, "@;
    let e = list_entry_text(m1, page);
    assert(e =~= "Post { date: \""@ + t1 + rest);
    assert(list_entry_text(m2, page) =~= "Post { date: \""@ + t2 + rest);
    assert(t1 =~= e.subrange(14, 14 + t1.len() as int));
    assert(t2 =~= e.subrange(14, 14 + t2.len() as int));
    lemma_date_text_injective(m1.date.0, m1.date.1, m1.date.2, m2.date.0, m2.date.1, m2.date.2, '-');
}

} // verus!
