//! A post's metadata: what its front matter says, and how it is stored.

use vstd::prelude::*;
use crate::date::{Date, chrono_parse_date, date_text, ymd_dash};
use crate::models::{self, texts};
use crate::yaml::{YamlNode, yaml_index, yaml_str};

verus! {

/// A tag of a post.
pub struct Tag(pub String);

/// Why front matter does not describe a post.
#[derive(Debug, PartialEq, Eq, Structural)]
pub enum ParseMetadataError {
    /// There is no `title` string.
    Title,
    /// There is no `date` string, or it is no `YYYY-MM-DD` date.
    Date,
}

/// A post's title, date and tags.
pub struct Metadata {
    pub title: String,
    pub date: Date,
    pub tags: Vec<Tag>,
}

/// Metadata as values: title, date as (year, month, day), tag texts.
pub ghost struct MetadataView {
    pub title: Seq<char>,
    pub date: (int, int, int),
    pub tags: Seq<Seq<char>>,
}

/// The texts of a sequence of tags.
pub open spec fn tag_texts(tags: Seq<Tag>) -> Seq<Seq<char>> {
    tags.map_values(|t: Tag| t.0@)
}

impl View for Metadata {
    type V = MetadataView;

    open spec fn view(&self) -> MetadataView {
        MetadataView {
            title: self.title@,
            date: (self.date.spec_year(), self.date.spec_month(), self.date.spec_day()),
            tags: tag_texts(self.tags@),
        }
    }
}

/// The texts of the string items of a YAML array, in order; other items are
/// skipped.
pub open spec fn yaml_string_items(items: Seq<YamlNode>) -> Seq<Seq<char>>
    decreases items.len(),
{
    if items.len() == 0 {
        seq![]
    } else {
        let rest = yaml_string_items(items.drop_last());
        match yaml_str(items.last()) {
            Some(s) => rest.push(s),
            None => rest,
        }
    }
}

/// The tags a `tags` node lists: its string items when it is an array,
/// otherwise none.
pub open spec fn yaml_tags(node: YamlNode) -> Seq<Seq<char>> {
    match node {
        YamlNode::Array(items) => yaml_string_items(items@),
        _ => seq![],
    }
}

/// What a front matter document says of its post: the `title` string, the
/// `date` string read as `YYYY-MM-DD`, and the string items of `tags`.
pub open spec fn yaml_metadata(doc: YamlNode) -> Result<MetadataView, ParseMetadataError> {
    match yaml_str(yaml_index(doc, Metadata::TITLE_KEY@)) {
        None => Err(ParseMetadataError::Title),
        Some(title) => match yaml_str(yaml_index(doc, Metadata::DATE_KEY@)) {
            None => Err(ParseMetadataError::Date),
            Some(text) => match chrono_parse_date(text, Metadata::DATE_FMT@) {
                None => Err(ParseMetadataError::Date),
                Some(date) => Ok(
                    MetadataView {
                        title,
                        date,
                        tags: yaml_tags(yaml_index(doc, Metadata::TAGS_KEY@)),
                    },
                ),
            },
        },
    }
}

/// The string items of a YAML array are its items that are strings, in
/// order, each as its text: every one of them is kept, and nothing else.
pub proof fn lemma_string_items_are_the_strings(items: Seq<YamlNode>)
    ensures
        yaml_string_items(items) == items.filter(|n: YamlNode| yaml_str(n) is Some).map_values(
            |n: YamlNode| yaml_str(n)->Some_0,
        ),
    decreases items.len(),
{
    reveal(Seq::filter);
    let p = |n: YamlNode| yaml_str(n) is Some;
    let f = |n: YamlNode| yaml_str(n)->Some_0;
    if items.len() > 0 {
        lemma_string_items_are_the_strings(items.drop_last());
        let kept = items.drop_last().filter(p);
        if p(items.last()) {
            assert(items.filter(p) == kept.push(items.last()));
            assert(kept.push(items.last()).map_values(f) =~= kept.map_values(f).push(
                f(items.last()),
            ));
        } else {
            assert(items.filter(p) == kept);
        }
    } else {
        assert(items.filter(p).map_values(f) =~= seq![]);
    }
}

/// Every string item of a `tags` array becomes a tag, in order, and nothing
/// else does: when a front matter document reads as a post, its tags are the
/// texts of the string items of its `tags` array, as many as there are (none
/// when `tags` is missing or no array).
pub proof fn lemma_metadata_keeps_every_tag(doc: YamlNode)
    ensures
        yaml_metadata(doc) matches Ok(meta) ==> meta.tags == match yaml_index(
            doc,
            Metadata::TAGS_KEY@,
        ) {
            YamlNode::Array(items) => items@.filter(|n: YamlNode| yaml_str(n) is Some).map_values(
                |n: YamlNode| yaml_str(n)->Some_0,
            ),
            _ => Seq::<Seq<char>>::empty(),
        },
{
    if let YamlNode::Array(items) = yaml_index(doc, Metadata::TAGS_KEY@) {
        lemma_string_items_are_the_strings(items@);
    }
}

/// What stored metadata says of its post, when its date reads as
/// `YYYY-MM-DD`.
pub open spec fn model_metadata(meta: models::Metadata) -> Option<MetadataView> {
    match chrono_parse_date(meta.date@, Metadata::DATE_FMT@) {
        Some(date) => Some(MetadataView { title: meta.title@, date, tags: texts(meta.tags@) }),
        None => None,
    }
}

impl Metadata {
    pub const TITLE_KEY: &'static str = "title";

    pub const DATE_KEY: &'static str = "date";

    pub const TAGS_KEY: &'static str = "tags";

    pub const DATE_FMT: &'static str = "%Y-%m-%d";

    /// Reads a post's metadata from its front matter document.
    pub fn parse_from_yaml(yaml: &YamlNode) -> (r: Result<Metadata, ParseMetadataError>)
        ensures
            match yaml_metadata(*yaml) {
                Ok(view) => r matches Ok(meta) && meta@ == view,
                Err(e) => r == Err::<Metadata, ParseMetadataError>(e),
            },
    {
        let title = match yaml.get(Self::TITLE_KEY) {
            Some(node) => match node.as_str() {
                Some(s) => s.to_owned(),
                None => return Err(ParseMetadataError::Title),
            },
            None => return Err(ParseMetadataError::Title),
        };
        let date_str = match yaml.get(Self::DATE_KEY) {
            Some(node) => match node.as_str() {
                Some(s) => s,
                None => return Err(ParseMetadataError::Date),
            },
            None => return Err(ParseMetadataError::Date),
        };
        let date = match Date::parse_from_str(date_str, Self::DATE_FMT) {
            Some(d) => d,
            None => return Err(ParseMetadataError::Date),
        };
        let mut tags: Vec<Tag> = Vec::new();
        match yaml.get(Self::TAGS_KEY) {
            Some(YamlNode::Array(items)) => {
                let mut i: usize = 0;
                while i < items.len()
                    invariant
                        0 <= i <= items@.len(),
                        tag_texts(tags@) == yaml_string_items(items@.take(i as int)),
                    decreases items@.len() - i,
                {
                    assert(items@.take(i + 1).drop_last() =~= items@.take(i as int));
                    if let Some(s) = items[i].as_str() {
                        tags.push(Tag(s.to_owned()));
                    }
                    proof {
                        assert(tag_texts(tags@) =~= yaml_string_items(items@.take(i + 1)));
                    }
                    i = i + 1;
                }
                assert(items@.take(items@.len() as int) =~= items@);
            },
            _ => {
                assert(tag_texts(tags@) =~= seq![]);
            },
        }
        Ok(Metadata { title, date, tags })
    }

    /// The metadata of a stored post, whose date is `YYYY-MM-DD` text.
    pub fn from_post(post: models::Post) -> (r: Metadata)
        requires
            chrono_parse_date(post.meta.date@, Metadata::DATE_FMT@) is Some,
        ensures
            model_metadata(post.meta) == Some(r@),
    {
        let meta = post.meta;
        let date = Date::parse_from_str(meta.date.as_str(), Self::DATE_FMT).unwrap();
        let mut tags: Vec<Tag> = Vec::new();
        let mut i: usize = 0;
        while i < meta.tags.len()
            invariant
                0 <= i <= meta.tags@.len(),
                tag_texts(tags@) =~= texts(meta.tags@.take(i as int)),
            decreases meta.tags@.len() - i,
        {
            tags.push(Tag(meta.tags[i].clone()));
            proof {
                assert(texts(meta.tags@.take(i + 1)) =~= texts(meta.tags@.take(i as int)).push(
                    meta.tags@[i as int]@,
                ));
            }
            i = i + 1;
        }
        assert(meta.tags@.take(meta.tags@.len() as int) =~= meta.tags@);
        Metadata { title: meta.title, date, tags }
    }

    /// The metadata of a stored post; `None` when its date is no
    /// `YYYY-MM-DD` text.
    pub fn try_from_post(post: models::Post) -> (r: Option<Metadata>)
        ensures
            match model_metadata(post.meta) {
                Some(view) => r matches Some(meta) && meta@ == view,
                None => r is None,
            },
    {
        match Date::parse_from_str(post.meta.date.as_str(), Self::DATE_FMT) {
            Some(_) => Some(Metadata::from_post(post)),
            None => None,
        }
    }

    /// The metadata to store for a post whose content went under `key`; it
    /// reads back as the same metadata.
    pub fn into_model(self, key: String) -> (r: models::Metadata)
        ensures
            r.title@ == self.title@,
            r.date@ == date_text(
                self.date.spec_year(),
                self.date.spec_month(),
                self.date.spec_day(),
                '-',
            ),
            r.key@ == key@,
            texts(r.tags@) == tag_texts(self.tags@),
            model_metadata(r) == Some(self@),
    {
        proof {
            reveal_strlit("%Y-%m-%d");
            assert(Metadata::DATE_FMT@ =~= ymd_dash());
        }
        let date = self.date.format(Self::DATE_FMT);
        let mut tags: Vec<String> = Vec::new();
        let mut i: usize = 0;
        while i < self.tags.len()
            invariant
                0 <= i <= self.tags@.len(),
                texts(tags@) =~= tag_texts(self.tags@.take(i as int)),
            decreases self.tags@.len() - i,
        {
            tags.push(self.tags[i].0.clone());
            proof {
                assert(tag_texts(self.tags@.take(i + 1)) =~= tag_texts(
                    self.tags@.take(i as int),
                ).push(self.tags@[i as int].0@));
            }
            i = i + 1;
        }
        assert(self.tags@.take(self.tags@.len() as int) =~= self.tags@);
        models::Metadata { title: self.title, date, key, tags }
    }
}

} // verus!
