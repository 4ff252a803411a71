//! The steps of a request for a post's page: find the key of the post's
//! content, fetch the object stored under it, read its body. Storage is
//! worked by the caller: each step takes what storage answered and says what
//! to do next.

use vstd::prelude::*;

verus! {

/// Why a post's page cannot be shown.
#[derive(Debug, PartialEq, Eq, Structural)]
pub enum PageFailure {
    /// The route names no post (answered 400).
    BadRequest,
    /// No object is stored under the post's key (answered 404).
    NotFound,
    /// Storage failed to answer (answered 500).
    StorageFailed,
}

/// What the bucket answered to a fetch.
#[derive(Debug, PartialEq, Eq, Structural)]
pub enum FetchOutcome {
    /// The fetch itself failed.
    Failed,
    /// Nothing is stored under the key.
    Missing,
    /// The object was found.
    Found,
}

/// Where a request for a post's page stands.
pub enum ContentState {
    /// The key of the post's content is being worked out.
    Locating,
    /// The object is being fetched.
    Fetching,
    /// The object's body is being read.
    Reading,
    /// The request has been answered.
    Finished,
}

/// What the caller found out for the last step.
pub enum ContentEvent {
    /// The key of the post's content, or `None` when the request names no
    /// post.
    Located(Option<String>),
    /// What fetching the object gave.
    Fetched(FetchOutcome),
    /// The object's body as text, or `None` when reading it failed.
    Read(Option<String>),
}

/// What the caller does next.
pub enum ContentAction {
    /// Fetch the object stored under the key.
    Fetch(String),
    /// Read the fetched object's body.
    ReadBody,
    /// Show the page with the body's HTML.
    Show(String),
    /// Answer with a failure.
    Fail(PageFailure),
}

/// The event that each state waits for.
pub open spec fn content_awaits(state: ContentState, event: ContentEvent) -> bool {
    match state {
        ContentState::Locating => event is Located,
        ContentState::Fetching => event is Fetched,
        ContentState::Reading => event is Read,
        ContentState::Finished => false,
    }
}

impl ContentState {
    /// Whether this state waits for `event`.
    pub fn awaits(&self, event: &ContentEvent) -> (r: bool)
        ensures
            r == content_awaits(*self, *event),
    {
        match self {
            ContentState::Locating => matches!(event, ContentEvent::Located(_)),
            ContentState::Fetching => matches!(event, ContentEvent::Fetched(_)),
            ContentState::Reading => matches!(event, ContentEvent::Read(_)),
            ContentState::Finished => false,
        }
    }
}

/// One step of a request for a post's page: a request that names no post is
/// a bad request, a failed fetch or body read a storage failure, a missing
/// object not found; otherwise the body is shown as it is stored.
pub fn content_step(state: ContentState, event: ContentEvent) -> (r: (ContentState, ContentAction))
    requires
        content_awaits(state, event),
    ensures
        match event {
            ContentEvent::Located(Some(key)) => r.0 is Fetching && r.1 == ContentAction::Fetch(key),
            ContentEvent::Located(None) => r.0 is Finished && r.1 == ContentAction::Fail(
                PageFailure::BadRequest,
            ),
            ContentEvent::Fetched(FetchOutcome::Found) => r.0 is Reading && r.1 is ReadBody,
            ContentEvent::Fetched(FetchOutcome::Missing) => r.0 is Finished && r.1
                == ContentAction::Fail(PageFailure::NotFound),
            ContentEvent::Fetched(FetchOutcome::Failed) => r.0 is Finished && r.1
                == ContentAction::Fail(PageFailure::StorageFailed),
            ContentEvent::Read(Some(html)) => r.0 is Finished && r.1 == ContentAction::Show(html),
            ContentEvent::Read(None) => r.0 is Finished && r.1 == ContentAction::Fail(
                PageFailure::StorageFailed,
            ),
        },
{
    match event {
        ContentEvent::Located(Some(key)) => (ContentState::Fetching, ContentAction::Fetch(key)),
        ContentEvent::Located(None) => (
            ContentState::Finished,
            ContentAction::Fail(PageFailure::BadRequest),
        ),
        ContentEvent::Fetched(FetchOutcome::Found) => (ContentState::Reading, ContentAction::ReadBody),
        ContentEvent::Fetched(FetchOutcome::Missing) => (
            ContentState::Finished,
            ContentAction::Fail(PageFailure::NotFound),
        ),
        ContentEvent::Fetched(FetchOutcome::Failed) => (
            ContentState::Finished,
            ContentAction::Fail(PageFailure::StorageFailed),
        ),
        ContentEvent::Read(Some(html)) => (ContentState::Finished, ContentAction::Show(html)),
        ContentEvent::Read(None) => (
            ContentState::Finished,
            ContentAction::Fail(PageFailure::StorageFailed),
        ),
    }
}

} // verus!
