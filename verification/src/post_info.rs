//! What the bucket's object metadata tells of a post.

use vstd::prelude::*;
use crate::date::{Date, chrono_parse_date};
use crate::route::{LinkStyle, encode_route, route_text};

verus! {

/// A post's title and date, as its stored object describes it.
pub struct PostInfo {
    pub title: String,
    pub date: Date,
}

/// The value of the first entry named `key`.
pub open spec fn entry_text(entries: Seq<(String, String)>, key: Seq<char>) -> Option<Seq<char>>
    decreases entries.len(),
{
    if entries.len() == 0 {
        None
    } else if entries[0].0@ == key {
        Some(entries[0].1@)
    } else {
        entry_text(entries.drop_first(), key)
    }
}

/// The title and date (year, month, day) that object metadata gives, when
/// it has a `title` and a `YYYY-MM-DD` `date`.
pub open spec fn object_post_info(entries: Seq<(String, String)>) -> Option<(Seq<char>, (int, int, int))> {
    match (entry_text(entries, "title"@), entry_text(entries, "date"@)) {
        (Some(title), Some(date)) => match chrono_parse_date(date, "%Y-%m-%d"@) {
            Some(d) => Some((title, d)),
            None => None,
        },
        _ => None,
    }
}

/// A link to a post's page: the style's base, `/post/read/`, then the route.
pub open spec fn read_href_text(date: Date, title: Seq<char>, style: LinkStyle) -> Seq<char> {
    style.base_text() + "/post/read/"@ + route_text(date, title)
}

/// The value of the first entry named `key`.
fn entry<'a>(entries: &'a Vec<(String, String)>, key: &str) -> (r: Option<&'a String>)
    ensures
        match r {
            Some(v) => entry_text(entries@, key@) == Some(v@),
            None => entry_text(entries@, key@) is None,
        },
{
    let wanted = key.to_owned();
    let mut i: usize = 0;
    assert(entries@.skip(0) =~= entries@);
    while i < entries.len()
        invariant
            0 <= i <= entries@.len(),
            wanted@ == key@,
            entry_text(entries@, key@) == entry_text(entries@.skip(i as int), key@),
        decreases entries@.len() - i,
    {
        let ghost rest = entries@.skip(i as int);
        assert(rest.drop_first() =~= entries@.skip(i + 1));
        assert(rest[0] == entries@[i as int]);
        if entries[i].0 == wanted {
            return Some(&entries[i].1);
        }
        i = i + 1;
    }
    None
}

impl PostInfo {
    /// The post that an object's metadata (its name and value pairs)
    /// describes; it has a `title` and a `YYYY-MM-DD` `date`.
    pub fn from_object(metadata: Vec<(String, String)>) -> (r: PostInfo)
        requires
            object_post_info(metadata@) is Some,
        ensures
            object_post_info(metadata@) == Some(
                (r.title@, (r.date.spec_year(), r.date.spec_month(), r.date.spec_day())),
            ),
    {
        let title = entry(&metadata, "title").unwrap().clone();
        let date = Date::parse_from_str(entry(&metadata, "date").unwrap().as_str(), "%Y-%m-%d").unwrap();
        PostInfo { title, date }
    }

    /// The post that an object's metadata describes; `None` when it lacks a
    /// `title` or a `YYYY-MM-DD` `date`.
    pub fn read_object(metadata: Vec<(String, String)>) -> (r: Option<PostInfo>)
        ensures
            match object_post_info(metadata@) {
                Some((title, date)) => r matches Some(info) && info.title@ == title && (
                info.date.spec_year(),
                info.date.spec_month(),
                info.date.spec_day(),
                ) == date,
                None => r is None,
            },
    {
        let has_title = entry(&metadata, "title").is_some();
        let date_ok = match entry(&metadata, "date") {
            Some(text) => Date::parse_from_str(text.as_str(), "%Y-%m-%d").is_some(),
            None => false,
        };
        if has_title && date_ok {
            Some(PostInfo::from_object(metadata))
        } else {
            None
        }
    }

    /// A link to this post's page.
    pub fn href(&self, style: LinkStyle) -> (r: String)
        ensures
            r@ == read_href_text(self.date, self.title@, style),
    {
        let location = encode_route(&self.date, self.title.as_str());
        let mut href = style.base().to_owned();
        href.append("/post/read/");
        href.append(location.as_str());
        href
    }
}

} // verus!
