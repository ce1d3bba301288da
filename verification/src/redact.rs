//! Appending to a room under its lock, with the redaction of an event as
//! the writer at hand.

use vstd::prelude::*;
use vstd::string::*;
use crate::error::SyncError;
use crate::strings::{opt_str_view, opt_string_view};

verus! {

/// An event that is yet to be appended: it has no id and no position.
#[derive(Debug)]
pub struct EventDraft {
    /// The event's type.
    pub event_type: String,
    /// The content, as JSON text.
    pub content: String,
    /// The state key, for an event that is to become part of the state.
    pub state_key: Option<String>,
    /// The event that this one redacts, if it redacts one.
    pub redacts: Option<String>,
}

/// The type of the event that redacts another.
pub open spec fn redaction_type() -> Seq<char> {
    "m.room.redaction"@
}

/// The JSON text of a redaction's content with the given reason, or
/// nothing where it cannot be written.
pub uninterp spec fn redaction_json(reason: Option<Seq<char>>) -> Option<Seq<char>>;

/// Writes the content of a redaction as JSON, with
/// `serde_json::value::to_raw_value` on ruma's `RoomRedactionEventContent`.
/// Trusted: that the text depends on the reason alone.
#[verifier::external_body]
pub(crate) fn write_redaction_content(reason: Option<&str>) -> (r: Option<String>)
    ensures
        opt_string_view(r) == redaction_json(opt_str_view(reason)),
{
    let mut content = ruma::events::room::redaction::RoomRedactionEventContent::new();
    content.reason = reason.map(str::to_owned);
    match serde_json::value::to_raw_value(&content) {
        Ok(raw) => Some(raw.get().to_owned()),
        Err(_) => None,
    }
}

/// The draft of a redaction: it is no state event, and names its target.
pub fn redaction_from_content(content: String, target: String) -> (r: EventDraft)
    ensures
        r.event_type@ == redaction_type(),
        r.content == content,
        r.state_key is None,
        r.redacts == Some(target),
{
    EventDraft {
        event_type: String::from_str("m.room.redaction"),
        content,
        state_key: None,
        redacts: Some(target),
    }
}

/// Drafts the event that redacts `target`, with an optional reason.
pub fn redaction_draft(reason: Option<&str>, target: &str) -> (r: Result<EventDraft, SyncError>)
    ensures
        match redaction_json(opt_str_view(reason)) {
            Some(json) => {
                &&& r is Ok
                &&& r->Ok_0.event_type@ == redaction_type()
                &&& r->Ok_0.content@ == json
                &&& r->Ok_0.state_key is None
                &&& r->Ok_0.redacts is Some
                &&& r->Ok_0.redacts->0@ == target@
            },
            None => r is Err && r->Err_0 == SyncError::UnwritableContent,
        },
{
    match write_redaction_content(reason) {
        Some(content) => Ok(redaction_from_content(content, String::from_str(target))),
        None => Err(SyncError::UnwritableContent),
    }
}

/// Where a writer stands.
#[derive(Clone, Copy, Debug, PartialEq, Eq, Structural)]
pub enum WriterPhase {
    /// It waits for the room's state-mutation lock.
    Waiting,
    /// It holds the lock and appends.
    Holding,
    /// It gives the lock back. `appended` says whether the event is in the log.
    Releasing { appended: bool },
    /// It has given the lock back and flushes what the store has buffered.
    Flushing,
    /// It is through. `ok` says whether the event is in the log and flushed.
    Finished { ok: bool },
}

/// What happened to a writer.
#[derive(Clone, Copy, Debug, PartialEq, Eq, Structural)]
pub enum WriterEvent {
    /// It got the lock.
    LockAcquired,
    /// The lock is poisoned: another writer died while holding it.
    LockPoisoned,
    /// The event was appended: it has its position, and the snapshot is updated.
    Appended,
    /// The event could not be appended; the log is as it was.
    AppendFailed,
    /// The lock was given back.
    LockReleased,
    /// The store flushed.
    Flushed,
    /// The store could not flush.
    FlushFailed,
}

/// Why a writer failed.
#[derive(Clone, Copy, Debug, PartialEq, Eq, Structural)]
pub enum Failure {
    /// The room's lock is poisoned.
    LockPoisoned,
    /// The store did not append the event.
    AppendFailed,
    /// The store did not flush.
    FlushFailed,
}

impl Failure {
    /// The error that the failure is answered with, where the engine has
    /// one of its own; where the store failed, the store's error stands.
    pub open spec fn error(self) -> Option<SyncError> {
        match self {
            Failure::LockPoisoned => Some(SyncError::LockPoisoned),
            Failure::AppendFailed => None,
            Failure::FlushFailed => None,
        }
    }

    /// The engine's error for the failure: a poisoned lock has one, a
    /// failure of the store has none.
    pub fn as_error(&self) -> (r: Option<SyncError>)
        ensures
            r == self.error(),
    {
        match self {
            Failure::LockPoisoned => Some(SyncError::LockPoisoned),
            Failure::AppendFailed => None,
            Failure::FlushFailed => None,
        }
    }
}

/// What a writer does next.
#[derive(Clone, Copy, Debug, PartialEq, Eq, Structural)]
pub enum WriterAction {
    /// Build the event and append it.
    Append,
    /// Give the lock back.
    ReleaseLock,
    /// Flush what the store has buffered.
    Flush,
    /// Answer with the new event's id.
    Respond,
    /// Answer with a failure.
    Fail { cause: Failure },
    /// Nothing: the event does not belong to this phase.
    Ignore,
}

/// The phase and action that follow an event. A writer appends only while
/// it holds the lock, gives the lock back whatever the append came to,
/// flushes only after that, and only what was appended.
pub open spec fn writer_next(phase: WriterPhase, event: WriterEvent) -> (WriterPhase, WriterAction) {
    match (phase, event) {
        (WriterPhase::Waiting, WriterEvent::LockAcquired) => (
            WriterPhase::Holding,
            WriterAction::Append,
        ),
        (WriterPhase::Waiting, WriterEvent::LockPoisoned) => (
            WriterPhase::Finished { ok: false },
            WriterAction::Fail { cause: Failure::LockPoisoned },
        ),
        (WriterPhase::Holding, WriterEvent::Appended) => (
            WriterPhase::Releasing { appended: true },
            WriterAction::ReleaseLock,
        ),
        (WriterPhase::Holding, WriterEvent::AppendFailed) => (
            WriterPhase::Releasing { appended: false },
            WriterAction::ReleaseLock,
        ),
        (WriterPhase::Releasing { appended: true }, WriterEvent::LockReleased) => (
            WriterPhase::Flushing,
            WriterAction::Flush,
        ),
        (WriterPhase::Releasing { appended: false }, WriterEvent::LockReleased) => (
            WriterPhase::Finished { ok: false },
            WriterAction::Fail { cause: Failure::AppendFailed },
        ),
        (WriterPhase::Flushing, WriterEvent::Flushed) => (
            WriterPhase::Finished { ok: true },
            WriterAction::Respond,
        ),
        (WriterPhase::Flushing, WriterEvent::FlushFailed) => (
            WriterPhase::Finished { ok: false },
            WriterAction::Fail { cause: Failure::FlushFailed },
        ),
        _ => (phase, WriterAction::Ignore),
    }
}

/// Whether a writer holds the room's lock in a phase.
pub open spec fn holds_lock(phase: WriterPhase) -> bool {
    phase is Holding || phase is Releasing
}

/// Says what a writer does next, and where it stands then.
pub fn writer_step(phase: WriterPhase, event: WriterEvent) -> (r: (WriterPhase, WriterAction))
    ensures
        r == writer_next(phase, event),
{
    match (phase, event) {
        (WriterPhase::Waiting, WriterEvent::LockAcquired) => (
            WriterPhase::Holding,
            WriterAction::Append,
        ),
        (WriterPhase::Waiting, WriterEvent::LockPoisoned) => (
            WriterPhase::Finished { ok: false },
            WriterAction::Fail { cause: Failure::LockPoisoned },
        ),
        (WriterPhase::Holding, WriterEvent::Appended) => (
            WriterPhase::Releasing { appended: true },
            WriterAction::ReleaseLock,
        ),
        (WriterPhase::Holding, WriterEvent::AppendFailed) => (
            WriterPhase::Releasing { appended: false },
            WriterAction::ReleaseLock,
        ),
        (WriterPhase::Releasing { appended: true }, WriterEvent::LockReleased) => (
            WriterPhase::Flushing,
            WriterAction::Flush,
        ),
        (WriterPhase::Releasing { appended: false }, WriterEvent::LockReleased) => (
            WriterPhase::Finished { ok: false },
            WriterAction::Fail { cause: Failure::AppendFailed },
        ),
        (WriterPhase::Flushing, WriterEvent::Flushed) => (
            WriterPhase::Finished { ok: true },
            WriterAction::Respond,
        ),
        (WriterPhase::Flushing, WriterEvent::FlushFailed) => (
            WriterPhase::Finished { ok: false },
            WriterAction::Fail { cause: Failure::FlushFailed },
        ),
        _ => (phase, WriterAction::Ignore),
    }
}

/// A writer appends only under the lock, never flushes or answers under
/// it, gives it back after every append, and answers with success only
/// after an append and a flush.
pub proof fn lemma_writer_discipline(phase: WriterPhase, event: WriterEvent)
    ensures
        writer_next(phase, event).1 == WriterAction::Append ==> holds_lock(
            writer_next(phase, event).0,
        ) && !holds_lock(phase),
        writer_next(phase, event).1 == WriterAction::Flush ==> !holds_lock(
            writer_next(phase, event).0,
        ) && phase == (WriterPhase::Releasing { appended: true }),
        writer_next(phase, event).1 == WriterAction::Respond ==> phase == WriterPhase::Flushing
            && writer_next(phase, event).0 == (WriterPhase::Finished { ok: true }),
        writer_next(phase, event).1 is Fail ==> !holds_lock(writer_next(phase, event).0),
        writer_next(phase, event).1 == (WriterAction::Fail { cause: Failure::LockPoisoned })
            <==> phase is Waiting && event is LockPoisoned,
        phase is Holding && writer_next(phase, event).1 != WriterAction::Ignore ==> writer_next(
            phase,
            event,
        ).1 == WriterAction::ReleaseLock,
        writer_next(phase, event).0 is Finished ==> !holds_lock(writer_next(phase, event).0),
{
}

} // verus!
