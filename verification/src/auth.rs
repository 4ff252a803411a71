//! Who may create, change and delete posts: those who send the secret key.

use vstd::prelude::*;
use vstd::utf8::encode_utf8;

verus! {

/// The bytes of the key that a request sent in its `x-post-key` header.
pub struct CreatePostHeader(pub Vec<u8>);

/// The secret key that the deployment holds.
pub struct CreatePostSecret(pub String);

/// A request is authorized when the key it sent is, byte for byte, the
/// UTF-8 encoding of the secret.
pub open spec fn authorizes(provided: Seq<u8>, secret: Seq<char>) -> bool {
    provided == encode_utf8(secret)
}

/// Whether the key sent with a request is the secret.
pub fn is_authorized(provided_key: CreatePostHeader, post_key_secret: CreatePostSecret) -> (r: bool)
    ensures
        r == authorizes(provided_key.0@, post_key_secret.0@),
{
    let CreatePostHeader(provided) = provided_key;
    let CreatePostSecret(secret) = post_key_secret;
    let expected = secret.as_str().as_bytes();
    if provided.len() != expected.len() {
        assert(provided@.len() != expected@.len());
        return false;
    }
    let mut i: usize = 0;
    while i < provided.len()
        invariant
            provided@.len() == expected@.len(),
            expected@ == encode_utf8(post_key_secret.0@),
            provided@ == provided_key.0@,
            0 <= i <= provided@.len(),
            forall|j: int| 0 <= j < i ==> provided@[j] == expected@[j],
        decreases provided@.len() - i,
    {
        if provided[i] != expected[i] {
            assert(provided@[i as int] != expected@[i as int]);
            return false;
        }
        i = i + 1;
    }
    assert(provided@ =~= expected@);
    true
}

} // verus!
