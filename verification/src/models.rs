//! Posts as the database keeps them.

use vstd::prelude::*;

verus! {

/// A post's metadata as stored: its date as `YYYY-MM-DD` text and the key of
/// its content in the bucket.
pub struct Metadata {
    pub title: String,
    pub date: String,
    pub key: String,
    pub tags: Vec<String>,
}

/// The database id of a post.
pub struct PostId(pub usize);

/// A stored post: its id and metadata.
pub struct Post {
    pub id: PostId,
    pub meta: Metadata,
}

/// The texts of a sequence of strings.
pub open spec fn texts(strings: Seq<String>) -> Seq<Seq<char>> {
    strings.map_values(|s: String| s@)
}

} // verus!
