//! Where posts are found: their routes and links, the key a route leads to,
//! and the continuation of a paginated list.

use vstd::prelude::*;
use crate::date::{
    Date, date_text, is_valid_date, lemma_date_numerals_read_back, two_digits, year_text, ymd_slash,
};
use crate::key::{date_key, encode_key, key_text};
use crate::text::{all_digits, digits_value, push_char};

verus! {

/// Whether links are written relative to the site or with its full address.
#[derive(Clone, Copy, PartialEq, Eq, Structural)]
pub enum LinkStyle {
    /// Links start at the site's root.
    Relative,
    /// Links start with the site's address.
    Absolute,
}

/// The ways a list of posts can be ordered.
pub enum Order {
    /// Earliest first.
    Ascending,
    /// Latest first.
    Descending,
}

impl LinkStyle {
    /// What links of this style start with.
    pub open spec fn base_text(self) -> Seq<char> {
        match self {
            LinkStyle::Relative => ""@,
            LinkStyle::Absolute => "https://blog.joeloach.co.uk"@,
        }
    }

    /// What links of this style start with.
    pub fn base(&self) -> (r: &'static str)
        ensures
            r@ == self.base_text(),
    {
        match self {
            LinkStyle::Relative => "",
            LinkStyle::Absolute => "https://blog.joeloach.co.uk",
        }
    }
}

/// Pages that other sites request (cross-origin) link with full addresses.
pub fn link_style(cors: bool) -> (r: LinkStyle)
    ensures
        r == (if cors { LinkStyle::Absolute } else { LinkStyle::Relative }),
{
    match cors {
        true => LinkStyle::Absolute,
        false => LinkStyle::Relative,
    }
}

/// The route of a post below the posts' path: `YYYY/MM/DD/name`.
pub open spec fn route_text(date: Date, name: Seq<char>) -> Seq<char> {
    date_text(date.spec_year(), date.spec_month(), date.spec_day(), '/') + seq!['/'] + name
}

/// The route of a post below the posts' path: `YYYY/MM/DD/name`.
pub fn encode_route(date: &Date, name: &str) -> (r: String)
    ensures
        r@ == route_text(*date, name@),
{
    let fmt = "%Y/%m/%d";
    proof {
        reveal_strlit("%Y/%m/%d");
        assert(fmt@ =~= ymd_slash());
    }
    let mut route = date.format(fmt);
    push_char(&mut route, '/');
    route.append(name);
    route
}

/// A link to a post: the style's base, `/post/`, then the post's route.
pub open spec fn post_href_text(date: Date, title: Seq<char>, style: LinkStyle) -> Seq<char> {
    style.base_text() + "/post/"@ + route_text(date, title)
}

/// A link to the post titled `title` of `date`.
pub fn post_href(date: &Date, title: &str, style: LinkStyle) -> (r: String)
    ensures
        r@ == post_href_text(*date, title@, style),
{
    let location = encode_route(date, title);
    let mut href = style.base().to_owned();
    href.append("/post/");
    href.append(location.as_str());
    href
}

/// The key of the post that the route `/post/{year}/{month}/{day}/{name}`
/// names, when that day exists; the year is read as an `i32`, as the route
/// handler does.
pub open spec fn content_key_text(year: u32, month: u32, day: u32, name: Seq<char>) -> Option<
    Seq<char>,
> {
    if is_valid_date((year as i32) as int, month as int, day as int) {
        Some(key_text((year as i32) as int, month as int, day as int, name))
    } else {
        None
    }
}

/// The day that a route's numbers name, the year read as an `i32` as the
/// route handlers do; `None` when that day does not exist (a bad request).
pub fn route_date(year: u32, month: u32, day: u32) -> (r: Option<Date>)
    ensures
        r is Some <==> is_valid_date((year as i32) as int, month as int, day as int),
        r matches Some(d) ==> d.spec_year() == (year as i32) as int && d.spec_month() == month
            && d.spec_day() == day,
{
    #[verifier::truncate]
    let signed_year = year as i32;
    Date::from_ymd_opt(signed_year, month, day)
}

/// The key of the post that the route `/post/{year}/{month}/{day}/{name}`
/// names; `None` when that day does not exist (a bad request).
pub fn post_content_key(year: u32, month: u32, day: u32, name: &str) -> (r: Option<String>)
    ensures
        match content_key_text(year, month, day, name@) {
            Some(k) => r matches Some(s) && s@ == k,
            None => r is None,
        },
{
    match route_date(year, month, day) {
        Some(date) => Some(encode_key(&date, name)),
        None => None,
    }
}

/// A post's day leads back to its key: the year, month and day of a post,
/// passed as the route handler takes them (the year as a `u32` read back as
/// an `i32`), give the key under which the post of that day and name is
/// stored.
pub proof fn lemma_route_reaches_key(date: Date, name: Seq<char>)
    requires
        date.is_valid(),
    ensures
        content_key_text(
            date.spec_year() as u32,
            date.spec_month() as u32,
            date.spec_day() as u32,
            name,
        ) == Some(key_text(date.spec_year(), date.spec_month(), date.spec_day(), name)),
{
    let y: i32 = date.spec_year() as i32;
    assert(y == date.spec_year());
    assert((y as u32) as i32 == y) by (bit_vector);
    assert(date.spec_year() as u32 == y as u32);
}

/// A post's route reads back (the part of a link's round trip that does not
/// rest on the router): for the years written with four digits, the route is
/// the year, month and day numerals and the name, joined by `/`; the numerals
/// are digits only, and the numbers they denote, passed as the route handler
/// takes them, lead to the post's key.
pub proof fn lemma_route_reads_back(date: Date, name: Seq<char>)
    requires
        date.is_valid(),
        0 <= date.spec_year() <= 9999,
    ensures
        route_text(date, name) == year_text(date.spec_year()) + seq!['/'] + two_digits(
            date.spec_month(),
        ) + seq!['/'] + two_digits(date.spec_day()) + seq!['/'] + name,
        all_digits(year_text(date.spec_year())),
        all_digits(two_digits(date.spec_month())),
        all_digits(two_digits(date.spec_day())),
        content_key_text(
            digits_value(year_text(date.spec_year())) as u32,
            digits_value(two_digits(date.spec_month())) as u32,
            digits_value(two_digits(date.spec_day())) as u32,
            name,
        ) == Some(date_key(date, name)),
{
    lemma_date_numerals_read_back(date.spec_year(), date.spec_month(), date.spec_day());
    lemma_route_reaches_key(date, name);
}

/// A post's link reads back to the post: for the years written with four
/// digits it is the style's base, `/post/`, the year, month and day numerals
/// (digits only, separated by `/`) that denote the post's own year, month and
/// day, `/`, and the title itself, unchanged; the numbers and the last
/// segment, passed as the route handler takes them, lead to the post's key.
pub proof fn lemma_link_reads_back(date: Date, title: Seq<char>, style: LinkStyle)
    requires
        date.is_valid(),
        0 <= date.spec_year() <= 9999,
    ensures
        ({
            let h = post_href_text(date, title, style);
            let b = style.base_text().len() as int;
            &&& h.len() == b + 17 + title.len()
            &&& h.subrange(0, b) == style.base_text()
            &&& h.subrange(b, b + 6) == "/post/"@
            &&& all_digits(h.subrange(b + 6, b + 10))
            &&& digits_value(h.subrange(b + 6, b + 10)) == date.spec_year()
            &&& h[b + 10] == '/'
            &&& all_digits(h.subrange(b + 11, b + 13))
            &&& digits_value(h.subrange(b + 11, b + 13)) == date.spec_month()
            &&& h[b + 13] == '/'
            &&& all_digits(h.subrange(b + 14, b + 16))
            &&& digits_value(h.subrange(b + 14, b + 16)) == date.spec_day()
            &&& h[b + 16] == '/'
            &&& h.subrange(b + 17, h.len() as int) == title
            &&& content_key_text(
                digits_value(h.subrange(b + 6, b + 10)) as u32,
                digits_value(h.subrange(b + 11, b + 13)) as u32,
                digits_value(h.subrange(b + 14, b + 16)) as u32,
                h.subrange(b + 17, h.len() as int),
            ) == Some(date_key(date, title))
        }),
{
    reveal_strlit("/post/");
    lemma_route_reads_back(date, title);
    let (y, m, d) = (date.spec_year(), date.spec_month(), date.spec_day());
    lemma_date_numerals_read_back(y, m, d);
    let h = post_href_text(date, title, style);
    let base = style.base_text();
    let b = base.len() as int;
    let (yt, mt, dt) = (year_text(y), two_digits(m), two_digits(d));
    assert(h =~= base + "/post/"@ + yt + seq!['/'] + mt + seq!['/'] + dt + seq!['/'] + title);
    assert(h.subrange(0, b) =~= base);
    assert(h.subrange(b, b + 6) =~= "/post/"@);
    assert(h.subrange(b + 6, b + 10) =~= yt);
    assert(h.subrange(b + 11, b + 13) =~= mt);
    assert(h.subrange(b + 14, b + 16) =~= dt);
    assert(h.subrange(b + 17, h.len() as int) =~= title);
}

/// Whatever the year, a post's link ends with `/` and the post's title,
/// unchanged.
pub proof fn lemma_link_ends_with_title(date: Date, title: Seq<char>, style: LinkStyle)
    ensures
        ({
            let h = post_href_text(date, title, style);
            &&& h.len() > title.len()
            &&& h[h.len() - title.len() - 1] == '/'
            &&& h.subrange(h.len() - title.len(), h.len() as int) == title
        }),
{
    let h = post_href_text(date, title, style);
    let front = style.base_text() + "/post/"@ + date_text(
        date.spec_year(),
        date.spec_month(),
        date.spec_day(),
        '/',
    );
    assert(h =~= front + seq!['/'] + title);
    assert(h.subrange(h.len() - title.len(), h.len() as int) =~= title);
}

/// The query that asks for the page after a listing: `?token=` and the
/// listing's continuation cursor, when the listing was cut short and gave
/// one.
pub open spec fn next_page_query_text(truncated: bool, cursor: Option<Seq<char>>) -> Option<
    Seq<char>,
> {
    match cursor {
        Some(c) => if truncated {
            Some("?token="@ + c)
        } else {
            None
        },
        None => None,
    }
}

/// The query that asks for the page after a listing, from whether the
/// listing was cut short and the continuation cursor it gave; `None` when
/// there is no next page to ask for. The cursor is the listing's own, not
/// the token that the request for this page came with: sending that token
/// again would ask for the same page once more (and the first page has
/// none, so the list would never go on).
pub fn next_page_query(truncated: bool, cursor: Option<&str>) -> (r: Option<String>)
    ensures
        r is Some <==> (truncated && cursor is Some),
        r matches Some(q) ==> next_page_query_text(
            truncated,
            match cursor {
                Some(c) => Some(c@),
                None => None,
            },
        ) == Some(q@),
{
    match cursor {
        Some(c) => if truncated {
            let mut query = "?token=".to_owned();
            query.append(c);
            Some(query)
        } else {
            None
        },
        None => None,
    }
}

/// Whether item `index` of a page of `count` items is the one that asks for
/// the next page: the last item, when there is a next page.
pub fn asks_for_more(index: usize, count: usize, has_next: bool) -> (r: bool)
    requires
        count > 0,
    ensures
        r == (index == count - 1 && has_next),
{
    index == count - 1 && has_next
}

/// The first page of a list comes with the list around its items; later
/// pages bring items only.
pub fn needs_list_body(token: Option<&str>) -> (r: bool)
    ensures
        r == token is None,
{
    token.is_none()
}

} // verus!
