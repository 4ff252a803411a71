//! The steps of a request that rewrites or removes a stored post. Storage
//! (the posts table and the content bucket) is worked by the caller: each
//! step takes what storage answered and says what to do next.

use vstd::prelude::*;
use crate::auth::{CreatePostHeader, CreatePostSecret, authorizes, is_authorized};
use crate::metadata::Metadata;
use crate::post_body::{PostBodyError, post_body, read_post_body};
use crate::request::Refusal;

verus! {

/// How a request that changes a post ends.
#[derive(Debug, PartialEq, Eq, Structural)]
pub enum Answer {
    /// The change was made.
    Done,
    /// The request was turned away.
    Refused(Refusal),
    /// Storing the new content failed (answered 500).
    StorageFailed,
}

/// Where a request that rewrites a post stands.
pub enum UpdateState {
    /// The request has arrived with its key, the secret it must match, and
    /// the new body.
    Received { provided: CreatePostHeader, secret: CreatePostSecret, content: String },
    /// The key matched; the post's row is being read.
    FindingRow { content: String },
    /// The row exists; its old content is being removed.
    RemovingOld { content: String },
    /// The new content is being stored.
    Storing { meta: Metadata },
    /// The row is being rewritten with the new metadata.
    Recording,
    /// The request has been answered.
    Finished,
}

/// What storage answered to the last step of an update.
pub enum UpdateEvent {
    /// Nothing yet: the exchange starts.
    Begin,
    /// The post's row was read: the key of its stored content, or `None`
    /// when no row has the id.
    RowRead(Option<String>),
    /// The old content was removed, whatever the bucket answered.
    OldRemoved,
    /// The new content was stored under the given key, or storing failed.
    Stored(Option<String>),
    /// The row was rewritten.
    Recorded,
}

/// What the caller does next for an update.
pub enum UpdateAction {
    /// Read the post's row.
    ReadRow,
    /// Remove the object stored under the key.
    RemoveObject(String),
    /// Store the rendered content under the title.
    StoreObject { title: String, html: String },
    /// Rewrite the post's row with the metadata and the new object's key.
    RecordRow { meta: Metadata, key: String },
    /// Answer the request.
    Answer(Answer),
}

/// The event that each state of an update waits for.
pub open spec fn update_awaits(state: UpdateState, event: UpdateEvent) -> bool {
    match state {
        UpdateState::Received { .. } => event is Begin,
        UpdateState::FindingRow { .. } => event is RowRead,
        UpdateState::RemovingOld { .. } => event is OldRemoved,
        UpdateState::Storing { .. } => event is Stored,
        UpdateState::Recording => event is Recorded,
        UpdateState::Finished => false,
    }
}

impl UpdateState {
    /// Whether this state waits for `event`.
    pub fn awaits(&self, event: &UpdateEvent) -> (r: bool)
        ensures
            r == update_awaits(*self, *event),
    {
        match self {
            UpdateState::Received { .. } => matches!(event, UpdateEvent::Begin),
            UpdateState::FindingRow { .. } => matches!(event, UpdateEvent::RowRead(_)),
            UpdateState::RemovingOld { .. } => matches!(event, UpdateEvent::OldRemoved),
            UpdateState::Storing { .. } => matches!(event, UpdateEvent::Stored(_)),
            UpdateState::Recording => matches!(event, UpdateEvent::Recorded),
            UpdateState::Finished => false,
        }
    }
}

/// One step of an update: the key is checked before anything else, a
/// missing row is a bad request, the old content is removed before the new
/// body is read, and the row is rewritten only once the new content is
/// stored.
pub fn update_step(state: UpdateState, event: UpdateEvent) -> (r: (UpdateState, UpdateAction))
    requires
        update_awaits(state, event),
    ensures
        match state {
            UpdateState::Received { provided, secret, content } => if authorizes(
                provided.0@,
                secret.0@,
            ) {
                r.0 == (UpdateState::FindingRow { content }) && r.1 is ReadRow
            } else {
                r.0 is Finished && r.1 == UpdateAction::Answer(Answer::Refused(Refusal::Unauthorized))
            },
            UpdateState::FindingRow { content } => match event {
                UpdateEvent::RowRead(Some(key)) => r.0 == (UpdateState::RemovingOld { content })
                    && r.1 == UpdateAction::RemoveObject(key),
                _ => r.0 is Finished && r.1 == UpdateAction::Answer(
                    Answer::Refused(Refusal::BadRequest),
                ),
            },
            UpdateState::RemovingOld { content } => match post_body(content@) {
                Ok((meta, html)) => {
                    &&& r.0 matches UpdateState::Storing { meta: m } && m@ == meta
                    &&& r.1 matches UpdateAction::StoreObject { title, html: h } && title@
                        == meta.title && h@ == html
                },
                Err(PostBodyError::Metadata(_)) => r.0 is Finished && r.1 == UpdateAction::Answer(
                    Answer::Refused(Refusal::BadRequest),
                ),
                Err(e) => r.0 is Finished && r.1 == UpdateAction::Answer(
                    Answer::Refused(Refusal::Malformed(e)),
                ),
            },
            UpdateState::Storing { meta } => match event {
                UpdateEvent::Stored(Some(key)) => r.0 is Recording && r.1 == (
                UpdateAction::RecordRow { meta, key }),
                _ => r.0 is Finished && r.1 == UpdateAction::Answer(Answer::StorageFailed),
            },
            UpdateState::Recording => r.0 is Finished && r.1 == UpdateAction::Answer(Answer::Done),
            UpdateState::Finished => true,
        },
{
    match state {
        UpdateState::Received { provided, secret, content } => {
            if is_authorized(provided, secret) {
                (UpdateState::FindingRow { content }, UpdateAction::ReadRow)
            } else {
                (
                    UpdateState::Finished,
                    UpdateAction::Answer(Answer::Refused(Refusal::Unauthorized)),
                )
            }
        },
        UpdateState::FindingRow { content } => match event {
            UpdateEvent::RowRead(Some(key)) => (
                UpdateState::RemovingOld { content },
                UpdateAction::RemoveObject(key),
            ),
            _ => (UpdateState::Finished, UpdateAction::Answer(Answer::Refused(Refusal::BadRequest))),
        },
        UpdateState::RemovingOld { content } => match read_post_body(content.as_str()) {
            Ok((meta, html)) => {
                let title = meta.title.clone();
                (UpdateState::Storing { meta }, UpdateAction::StoreObject { title, html })
            },
            Err(PostBodyError::Metadata(_)) => (
                UpdateState::Finished,
                UpdateAction::Answer(Answer::Refused(Refusal::BadRequest)),
            ),
            Err(e) => (
                UpdateState::Finished,
                UpdateAction::Answer(Answer::Refused(Refusal::Malformed(e))),
            ),
        },
        UpdateState::Storing { meta } => match event {
            UpdateEvent::Stored(Some(key)) => (
                UpdateState::Recording,
                UpdateAction::RecordRow { meta, key },
            ),
            _ => (UpdateState::Finished, UpdateAction::Answer(Answer::StorageFailed)),
        },
        UpdateState::Recording => (UpdateState::Finished, UpdateAction::Answer(Answer::Done)),
        UpdateState::Finished => (UpdateState::Finished, UpdateAction::Answer(Answer::Done)),
    }
}

/// Where a request that removes a post stands.
pub enum DeleteState {
    /// The request has arrived with its key and the secret it must match.
    Received { provided: CreatePostHeader, secret: CreatePostSecret },
    /// The key matched; the post's row is being read.
    FindingRow,
    /// The row exists; it is being removed.
    RemovingRow { key: String },
    /// The row is gone; the post's content is being removed.
    RemovingObject,
    /// The request has been answered.
    Finished,
}

/// What storage answered to the last step of a removal.
pub enum DeleteEvent {
    /// Nothing yet: the exchange starts.
    Begin,
    /// The post's row was read: the key of its stored content, or `None`
    /// when no row has the id.
    RowRead(Option<String>),
    /// The row was removed.
    RowRemoved,
    /// The content was removed.
    ObjectRemoved,
}

/// What the caller does next for a removal.
pub enum DeleteAction {
    /// Read the post's row.
    ReadRow,
    /// Remove the post's row.
    RemoveRow,
    /// Remove the object stored under the key.
    RemoveObject(String),
    /// Answer the request.
    Answer(Answer),
}

/// The event that each state of a removal waits for.
pub open spec fn delete_awaits(state: DeleteState, event: DeleteEvent) -> bool {
    match state {
        DeleteState::Received { .. } => event is Begin,
        DeleteState::FindingRow => event is RowRead,
        DeleteState::RemovingRow { .. } => event is RowRemoved,
        DeleteState::RemovingObject => event is ObjectRemoved,
        DeleteState::Finished => false,
    }
}

impl DeleteState {
    /// Whether this state waits for `event`.
    pub fn awaits(&self, event: &DeleteEvent) -> (r: bool)
        ensures
            r == delete_awaits(*self, *event),
    {
        match self {
            DeleteState::Received { .. } => matches!(event, DeleteEvent::Begin),
            DeleteState::FindingRow => matches!(event, DeleteEvent::RowRead(_)),
            DeleteState::RemovingRow { .. } => matches!(event, DeleteEvent::RowRemoved),
            DeleteState::RemovingObject => matches!(event, DeleteEvent::ObjectRemoved),
            DeleteState::Finished => false,
        }
    }
}

/// One step of a removal: the key is checked before anything else, a
/// missing row is a bad request, and the row goes before the content it
/// points to.
pub fn delete_step(state: DeleteState, event: DeleteEvent) -> (r: (DeleteState, DeleteAction))
    requires
        delete_awaits(state, event),
    ensures
        match state {
            DeleteState::Received { provided, secret } => if authorizes(provided.0@, secret.0@) {
                r.0 is FindingRow && r.1 is ReadRow
            } else {
                r.0 is Finished && r.1 == DeleteAction::Answer(Answer::Refused(Refusal::Unauthorized))
            },
            DeleteState::FindingRow => match event {
                DeleteEvent::RowRead(Some(key)) => r.0 == (DeleteState::RemovingRow { key })
                    && r.1 is RemoveRow,
                _ => r.0 is Finished && r.1 == DeleteAction::Answer(
                    Answer::Refused(Refusal::BadRequest),
                ),
            },
            DeleteState::RemovingRow { key } => r.0 is RemovingObject && r.1
                == DeleteAction::RemoveObject(key),
            DeleteState::RemovingObject => r.0 is Finished && r.1 == DeleteAction::Answer(
                Answer::Done,
            ),
            DeleteState::Finished => true,
        },
{
    match state {
        DeleteState::Received { provided, secret } => {
            if is_authorized(provided, secret) {
                (DeleteState::FindingRow, DeleteAction::ReadRow)
            } else {
                (
                    DeleteState::Finished,
                    DeleteAction::Answer(Answer::Refused(Refusal::Unauthorized)),
                )
            }
        },
        DeleteState::FindingRow => match event {
            DeleteEvent::RowRead(Some(key)) => (
                DeleteState::RemovingRow { key },
                DeleteAction::RemoveRow,
            ),
            _ => (DeleteState::Finished, DeleteAction::Answer(Answer::Refused(Refusal::BadRequest))),
        },
        DeleteState::RemovingRow { key } => (
            DeleteState::RemovingObject,
            DeleteAction::RemoveObject(key),
        ),
        DeleteState::RemovingObject => (DeleteState::Finished, DeleteAction::Answer(Answer::Done)),
        DeleteState::Finished => (DeleteState::Finished, DeleteAction::Answer(Answer::Done)),
    }
}

} // verus!
