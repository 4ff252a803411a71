use blog::auth::{CreatePostHeader, CreatePostSecret};
use blog::change::{
    delete_step, update_step, Answer, DeleteAction, DeleteEvent, DeleteState, UpdateAction,
    UpdateEvent, UpdateState,
};
use blog::post_body::PostBodyError;
use blog::request::Refusal;

const BODY: &str = "---\ntitle: Hello\ndate: 2025-04-13\ntags:\n  - rust\n---\n# Hi\n\nSome *text*.\n";

fn received(key: &[u8], content: &str) -> UpdateState {
    UpdateState::Received {
        provided: CreatePostHeader(key.to_vec()),
        secret: CreatePostSecret("secret".to_string()),
        content: content.to_string(),
    }
}

fn answer_of(action: UpdateAction) -> Answer {
    match action {
        UpdateAction::Answer(answer) => answer,
        _ => panic!("the step asked for storage work, not an answer"),
    }
}

#[test]
fn update_runs_its_steps_in_order() {
    let (state, action) = update_step(received(b"secret", BODY), UpdateEvent::Begin);
    assert!(matches!(action, UpdateAction::ReadRow));
    assert!(state.awaits(&UpdateEvent::RowRead(None)));

    let old_key = "HJHE-JF-IG_2025-04-13_Hello".to_string();
    let (state, action) = update_step(state, UpdateEvent::RowRead(Some(old_key.clone())));
    // the old content goes before the new body is read
    match action {
        UpdateAction::RemoveObject(key) => assert_eq!(key, old_key),
        _ => panic!("the old object should be removed next"),
    }

    let (state, action) = update_step(state, UpdateEvent::OldRemoved);
    match action {
        UpdateAction::StoreObject { title, html } => {
            assert_eq!(title, "Hello");
            assert_eq!(html, "<h1>Hi</h1>\n<p>Some <em>text</em>.</p>\n");
        }
        _ => panic!("the new content should be stored next"),
    }

    let new_key = "Hello".to_string();
    let (state, action) = update_step(state, UpdateEvent::Stored(Some(new_key.clone())));
    match action {
        UpdateAction::RecordRow { meta, key } => {
            assert_eq!(meta.title, "Hello");
            assert_eq!(key, new_key);
        }
        _ => panic!("the row should be rewritten next"),
    }

    let (state, action) = update_step(state, UpdateEvent::Recorded);
    assert_eq!(answer_of(action), Answer::Done);
    assert!(matches!(state, UpdateState::Finished));
    assert!(!state.awaits(&UpdateEvent::Begin));
}

#[test]
fn update_with_a_wrong_key_touches_nothing() {
    let (state, action) = update_step(received(b"wrong", BODY), UpdateEvent::Begin);
    assert_eq!(answer_of(action), Answer::Refused(Refusal::Unauthorized));
    assert!(matches!(state, UpdateState::Finished));
}

#[test]
fn update_of_a_missing_row_is_a_bad_request() {
    let (state, _) = update_step(received(b"secret", BODY), UpdateEvent::Begin);
    let (state, action) = update_step(state, UpdateEvent::RowRead(None));
    assert_eq!(answer_of(action), Answer::Refused(Refusal::BadRequest));
    assert!(matches!(state, UpdateState::Finished));
}

#[test]
fn update_with_a_bad_body_is_refused_after_the_old_content_goes() {
    let (state, _) = update_step(received(b"secret", "---\ndate: 2025-04-13\n---\nx\n"), UpdateEvent::Begin);
    let (state, action) = update_step(state, UpdateEvent::RowRead(Some("k".to_string())));
    assert!(matches!(action, UpdateAction::RemoveObject(_)));
    let (_, action) = update_step(state, UpdateEvent::OldRemoved);
    assert_eq!(answer_of(action), Answer::Refused(Refusal::BadRequest));

    let (state, _) = update_step(received(b"secret", "no front matter"), UpdateEvent::Begin);
    let (state, _) = update_step(state, UpdateEvent::RowRead(Some("k".to_string())));
    let (_, action) = update_step(state, UpdateEvent::OldRemoved);
    assert_eq!(
        answer_of(action),
        Answer::Refused(Refusal::Malformed(PostBodyError::MissingFrontMatter))
    );
}

#[test]
fn update_whose_store_fails_is_a_storage_failure() {
    let (state, _) = update_step(received(b"secret", BODY), UpdateEvent::Begin);
    let (state, _) = update_step(state, UpdateEvent::RowRead(Some("k".to_string())));
    let (state, _) = update_step(state, UpdateEvent::OldRemoved);
    let (state, action) = update_step(state, UpdateEvent::Stored(None));
    assert_eq!(answer_of(action), Answer::StorageFailed);
    assert!(matches!(state, UpdateState::Finished));
}

#[test]
fn update_states_wait_for_their_own_events() {
    let state = received(b"secret", BODY);
    assert!(state.awaits(&UpdateEvent::Begin));
    assert!(!state.awaits(&UpdateEvent::Recorded));
    assert!(!state.awaits(&UpdateEvent::RowRead(None)));
}

fn delete_received(key: &[u8]) -> DeleteState {
    DeleteState::Received {
        provided: CreatePostHeader(key.to_vec()),
        secret: CreatePostSecret("secret".to_string()),
    }
}

#[test]
fn delete_removes_the_row_then_the_content() {
    let (state, action) = delete_step(delete_received(b"secret"), DeleteEvent::Begin);
    assert!(matches!(action, DeleteAction::ReadRow));
    let (state, action) = delete_step(state, DeleteEvent::RowRead(Some("k1".to_string())));
    assert!(matches!(action, DeleteAction::RemoveRow));
    assert!(state.awaits(&DeleteEvent::RowRemoved));
    assert!(!state.awaits(&DeleteEvent::ObjectRemoved));
    let (state, action) = delete_step(state, DeleteEvent::RowRemoved);
    match action {
        DeleteAction::RemoveObject(key) => assert_eq!(key, "k1"),
        _ => panic!("the content should be removed next"),
    }
    let (state, action) = delete_step(state, DeleteEvent::ObjectRemoved);
    assert!(matches!(action, DeleteAction::Answer(Answer::Done)));
    assert!(matches!(state, DeleteState::Finished));
}

#[test]
fn delete_refusals() {
    let (state, action) = delete_step(delete_received(b"nope"), DeleteEvent::Begin);
    assert!(matches!(action, DeleteAction::Answer(Answer::Refused(Refusal::Unauthorized))));
    assert!(matches!(state, DeleteState::Finished));

    let (state, _) = delete_step(delete_received(b"secret"), DeleteEvent::Begin);
    let (state, action) = delete_step(state, DeleteEvent::RowRead(None));
    assert!(matches!(action, DeleteAction::Answer(Answer::Refused(Refusal::BadRequest))));
    assert!(matches!(state, DeleteState::Finished));
}

use blog::content::{
    content_step, ContentAction, ContentEvent, ContentState, FetchOutcome, PageFailure,
};

fn failure_of(action: ContentAction) -> PageFailure {
    match action {
        ContentAction::Fail(failure) => failure,
        _ => panic!("the step should have failed the page"),
    }
}

#[test]
fn page_is_fetched_read_and_shown() {
    let (state, action) =
        content_step(ContentState::Locating, ContentEvent::Located(Some("k".to_string())));
    match action {
        ContentAction::Fetch(key) => assert_eq!(key, "k"),
        _ => panic!("the object should be fetched next"),
    }
    assert!(state.awaits(&ContentEvent::Fetched(FetchOutcome::Found)));
    let (state, action) = content_step(state, ContentEvent::Fetched(FetchOutcome::Found));
    assert!(matches!(action, ContentAction::ReadBody));
    let (state, action) = content_step(state, ContentEvent::Read(Some("<p>hi</p>".to_string())));
    match action {
        ContentAction::Show(html) => assert_eq!(html, "<p>hi</p>"),
        _ => panic!("the page should be shown"),
    }
    assert!(matches!(state, ContentState::Finished));
}

#[test]
fn page_failures() {
    let (_, action) = content_step(ContentState::Locating, ContentEvent::Located(None));
    assert_eq!(failure_of(action), PageFailure::BadRequest);
    let (_, action) = content_step(ContentState::Fetching, ContentEvent::Fetched(FetchOutcome::Missing));
    assert_eq!(failure_of(action), PageFailure::NotFound);
    let (_, action) = content_step(ContentState::Fetching, ContentEvent::Fetched(FetchOutcome::Failed));
    assert_eq!(failure_of(action), PageFailure::StorageFailed);
    let (state, action) = content_step(ContentState::Reading, ContentEvent::Read(None));
    assert_eq!(failure_of(action), PageFailure::StorageFailed);
    assert!(!state.awaits(&ContentEvent::Read(None)));
}
