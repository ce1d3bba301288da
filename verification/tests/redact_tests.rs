use homeserver_sync::error::SyncError;
use homeserver_sync::redact::{
    redaction_draft, redaction_from_content, writer_step, Failure, WriterAction, WriterEvent,
    WriterPhase,
};

#[test]
fn redaction_with_reason_is_written_as_json() {
    let draft = redaction_draft(Some("spam"), "$target:x.org").unwrap();
    assert_eq!(draft.event_type, "m.room.redaction");
    assert_eq!(draft.content, r#"{"reason":"spam"}"#);
    assert_eq!(draft.state_key, None);
    assert_eq!(draft.redacts, Some("$target:x.org".to_owned()));
}

#[test]
fn redaction_without_reason_has_empty_content() {
    let draft = redaction_draft(None, "$target:x.org").unwrap();
    assert_eq!(draft.content, "{}");
    assert_eq!(draft.redacts, Some("$target:x.org".to_owned()));
    assert_eq!(draft.state_key, None);
}

#[test]
fn redaction_reason_is_escaped() {
    let draft = redaction_draft(Some("said \"no\"\n"), "$t").unwrap();
    assert_eq!(draft.content, r#"{"reason":"said \"no\"\n"}"#);
}

#[test]
fn redaction_draft_takes_content_as_given() {
    let draft = redaction_from_content("{}".to_owned(), "$t".to_owned());
    assert_eq!(draft.event_type, "m.room.redaction");
    assert_eq!(draft.content, "{}");
    assert_eq!(draft.state_key, None);
    assert_eq!(draft.redacts, Some("$t".to_owned()));
}

#[test]
fn writer_appends_under_the_lock_and_flushes_after_it() {
    let mut phase = WriterPhase::Waiting;
    let mut actions = Vec::new();
    for event in [
        WriterEvent::LockAcquired,
        WriterEvent::Appended,
        WriterEvent::LockReleased,
        WriterEvent::Flushed,
    ] {
        let (next, action) = writer_step(phase, event);
        phase = next;
        actions.push(action);
    }
    assert_eq!(
        actions,
        vec![WriterAction::Append, WriterAction::ReleaseLock, WriterAction::Flush, WriterAction::Respond]
    );
    assert_eq!(phase, WriterPhase::Finished { ok: true });
}

#[test]
fn failed_append_gives_the_lock_back_and_does_not_flush() {
    let (phase, action) = writer_step(WriterPhase::Holding, WriterEvent::AppendFailed);
    assert_eq!(action, WriterAction::ReleaseLock);
    assert_eq!(phase, WriterPhase::Releasing { appended: false });
    let (phase, action) = writer_step(phase, WriterEvent::LockReleased);
    assert_eq!(action, WriterAction::Fail { cause: Failure::AppendFailed });
    assert_eq!(phase, WriterPhase::Finished { ok: false });
}

#[test]
fn poisoned_lock_is_fatal() {
    let (phase, action) = writer_step(WriterPhase::Waiting, WriterEvent::LockPoisoned);
    assert_eq!(action, WriterAction::Fail { cause: Failure::LockPoisoned });
    assert_eq!(phase, WriterPhase::Finished { ok: false });
    assert_eq!(Failure::LockPoisoned.as_error(), Some(SyncError::LockPoisoned));
}

#[test]
fn failed_flush_fails_the_request() {
    let (phase, action) = writer_step(WriterPhase::Flushing, WriterEvent::FlushFailed);
    assert_eq!(action, WriterAction::Fail { cause: Failure::FlushFailed });
    assert_eq!(phase, WriterPhase::Finished { ok: false });
    assert_eq!(Failure::FlushFailed.as_error(), None);
    assert_eq!(Failure::AppendFailed.as_error(), None);
}

#[test]
fn events_out_of_turn_are_ignored() {
    for (phase, event) in [
        (WriterPhase::Waiting, WriterEvent::Appended),
        (WriterPhase::Waiting, WriterEvent::Flushed),
        (WriterPhase::Holding, WriterEvent::LockAcquired),
        (WriterPhase::Holding, WriterEvent::Flushed),
        (WriterPhase::Flushing, WriterEvent::Appended),
        (WriterPhase::Finished { ok: true }, WriterEvent::LockAcquired),
        (WriterPhase::Finished { ok: false }, WriterEvent::Flushed),
    ] {
        assert_eq!(writer_step(phase, event), (phase, WriterAction::Ignore));
    }
}

#[test]
fn every_error_has_its_message() {
    assert_eq!(SyncError::MalformedToken.message(), "Invalid since token.");
    assert_eq!(SyncError::MissingSnapshot.message(), "All rooms have state.");
    assert_eq!(SyncError::LockPoisoned.message(), "A room lock is poisoned.");
    assert_eq!(SyncError::UnwritableContent.message(), "The event content cannot be written.");
    assert!(SyncError::MalformedToken.caller_at_fault());
    assert!(!SyncError::MissingSnapshot.caller_at_fault());
    assert!(!SyncError::LockPoisoned.caller_at_fault());
}
