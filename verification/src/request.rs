//! What a request that creates or updates a post is answered, before any
//! storage is touched.

use vstd::prelude::*;
use crate::auth::{CreatePostHeader, CreatePostSecret, authorizes, is_authorized};
use crate::metadata::{Metadata, MetadataView};
use crate::post_body::{
    PostBodyError, check_framing, framing_error, parse_post_body, post_body,
};

verus! {

/// Why a request to create or update a post is turned away.
#[derive(Debug, PartialEq, Eq, Structural)]
pub enum Refusal {
    /// The key it sent is not the secret (answered 401).
    Unauthorized,
    /// Its front matter does not describe a post (answered 400).
    BadRequest,
    /// Its body does not open with a YAML document at all.
    Malformed(PostBodyError),
}

/// The answer to a request with the key `provided` and body `body`, when the
/// secret is `secret`: refused unless authorized, then what the body says.
pub open spec fn post_request(provided: Seq<u8>, secret: Seq<char>, body: Seq<char>) -> Result<
    (MetadataView, Seq<char>),
    Refusal,
> {
    if !authorizes(provided, secret) {
        Err(Refusal::Unauthorized)
    } else {
        match post_body(body) {
            Ok(parsed) => Ok(parsed),
            Err(PostBodyError::Metadata(_)) => Err(Refusal::BadRequest),
            Err(e) => Err(Refusal::Malformed(e)),
        }
    }
}

/// A request is accepted exactly when it sent the secret and its body reads
/// as a post, and then with the metadata and HTML the body gives, whatever
/// they hold (a post with no tags, say): the key and the body decide alone.
pub proof fn lemma_readable_posts_are_accepted(
    provided: Seq<u8>,
    secret: Seq<char>,
    body: Seq<char>,
)
    ensures
        post_request(provided, secret, body) is Ok <==> (authorizes(provided, secret) && post_body(
            body,
        ) is Ok),
        authorizes(provided, secret) ==> (post_body(body) matches Ok(read) ==> post_request(
            provided,
            secret,
            body,
        ) == Ok::<(MetadataView, Seq<char>), Refusal>(read)),
{
}

/// Checks a request to create a post whose body, when its key is the
/// secret, opens with a YAML document (a body that does not cannot be read
/// at all): its key, then what the body says.
pub fn create_request(
    provided_key: CreatePostHeader,
    post_key_secret: CreatePostSecret,
    body: &str,
) -> (r: Result<(Metadata, String), Refusal>)
    requires
        authorizes(provided_key.0@, post_key_secret.0@) ==> framing_error(body@) is None,
    ensures
        match post_request(provided_key.0@, post_key_secret.0@, body@) {
            Ok((meta, html)) => r matches Ok((m, h)) && m@ == meta && h@ == html,
            Err(e) => r matches Err(e2) && e2 == e,
        },
{
    if !is_authorized(provided_key, post_key_secret) {
        return Err(Refusal::Unauthorized);
    }
    match parse_post_body(body) {
        Some(parsed) => Ok(parsed),
        None => Err(Refusal::BadRequest),
    }
}

/// Checks a request to create or update a post: a request with the wrong key
/// is unauthorized whatever its body; otherwise a body that opens with no
/// YAML document is answered `Malformed`, and any other is read.
pub fn accept_post(
    provided_key: CreatePostHeader,
    post_key_secret: CreatePostSecret,
    body: &str,
) -> (r: Result<(Metadata, String), Refusal>)
    ensures
        match post_request(provided_key.0@, post_key_secret.0@, body@) {
            Ok((meta, html)) => r matches Ok((m, h)) && m@ == meta && h@ == html,
            Err(e) => r matches Err(e2) && e2 == e,
        },
{
    match check_framing(body) {
        None => create_request(provided_key, post_key_secret, body),
        Some(e) => if is_authorized(provided_key, post_key_secret) {
            Err(Refusal::Malformed(e))
        } else {
            Err(Refusal::Unauthorized)
        },
    }
}

} // verus!
