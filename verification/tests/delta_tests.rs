use homeserver_sync::delta::{
    joined_since, newly_encrypted, plan_state, state_delta, StatePlan,
};
use homeserver_sync::error::SyncError;
use homeserver_sync::event::{Membership, PersistedEvent};
use homeserver_sync::state::{StateEntry, StateMap};
use homeserver_sync::timeline::select_timeline;

fn state_of(entries: &[(&str, &str, &str)]) -> StateMap {
    let mut state = StateMap::new();
    for (t, k, id) in entries {
        state.insert((*t).to_owned(), (*k).to_owned(), (*id).to_owned());
    }
    state
}

fn ids(entries: &[StateEntry]) -> Vec<String> {
    entries.iter().map(|e| e.value.clone()).collect()
}

fn message(position: u64) -> PersistedEvent {
    PersistedEvent {
        event_id: format!("$m{}", position),
        position,
        event_type: "m.room.message".to_owned(),
        state_key: None,
        content: "{}".to_owned(),
        sender: "@alice:example.org".to_owned(),
        redacts: None,
    }
}

#[test]
fn no_snapshot_for_since_means_initial() {
    assert_eq!(plan_state(None, Some(7), 0), Ok(StatePlan::Initial));
    assert_eq!(plan_state(None, Some(7), 3), Ok(StatePlan::Initial));
}

#[test]
fn same_snapshot_and_empty_timeline_means_unchanged() {
    assert_eq!(plan_state(Some(7), Some(7), 0), Ok(StatePlan::Unchanged));
}

#[test]
fn new_events_or_another_snapshot_mean_incremental() {
    assert_eq!(plan_state(Some(7), Some(7), 1), Ok(StatePlan::Incremental));
    assert_eq!(plan_state(Some(6), Some(7), 0), Ok(StatePlan::Incremental));
    assert_eq!(plan_state(Some(6), Some(7), 4), Ok(StatePlan::Incremental));
}

#[test]
fn room_without_current_snapshot_fails_the_request() {
    assert_eq!(plan_state(Some(6), None, 0), Err(SyncError::MissingSnapshot));
    assert_eq!(plan_state(None, None, 2), Err(SyncError::MissingSnapshot));
}

#[test]
fn only_a_join_at_since_counts_as_already_joined() {
    assert!(!joined_since(Some(Membership::Join)));
    assert!(joined_since(None));
    assert!(joined_since(Some(Membership::Invite)));
    assert!(joined_since(Some(Membership::Leave)));
    assert!(joined_since(Some(Membership::Ban)));
    assert!(joined_since(Some(Membership::Knock)));
    assert!(joined_since(Some(Membership::Other)));
}

#[test]
fn initial_sync_sends_the_whole_state() {
    let current = state_of(&[("m.room.create", "", "$1"), ("m.room.member", "@a:x.org", "$2")]);
    let delta = state_delta(StatePlan::Initial, None, &current, &StateMap::new());
    assert_eq!(ids(&delta.entries), vec!["$1", "$2"]);
    assert!(delta.joined_since_last_sync);
}

#[test]
fn initial_sync_with_three_messages_still_sends_the_state() {
    let log = vec![message(3), message(2), message(1)];
    let slice = select_timeline(&log, 0);
    assert_eq!(slice.events.len(), 3);
    let plan = plan_state(None, Some(1), slice.events.len()).unwrap();
    assert_eq!(plan, StatePlan::Initial);
    let current = state_of(&[("m.room.create", "", "$c"), ("m.room.member", "@a:x.org", "$j")]);
    let delta = state_delta(plan, None, &current, &StateMap::new());
    assert_eq!(ids(&delta.entries), vec!["$c", "$j"]);
}

#[test]
fn unchanged_room_sends_no_state() {
    let current = state_of(&[("m.room.create", "", "$1")]);
    let delta = state_delta(StatePlan::Unchanged, Some(Membership::Join), &current, &current);
    assert!(delta.entries.is_empty());
    assert!(!delta.joined_since_last_sync);
}

#[test]
fn incremental_sync_sends_what_changed() {
    let since = state_of(&[("m.room.create", "", "$1"), ("m.room.name", "", "$2")]);
    let current = state_of(&[("m.room.create", "", "$1"), ("m.room.name", "", "$3")]);
    let delta = state_delta(StatePlan::Incremental, Some(Membership::Join), &current, &since);
    assert_eq!(ids(&delta.entries), vec!["$3"]);
    assert!(!delta.joined_since_last_sync);
}

#[test]
fn newly_joined_requester_gets_full_state_not_a_diff() {
    let since = state_of(&[
        ("m.room.create", "", "$1"),
        ("m.room.name", "", "$2"),
        ("m.room.member", "@me:x.org", "$3"),
    ]);
    let current = state_of(&[
        ("m.room.create", "", "$1"),
        ("m.room.name", "", "$2"),
        ("m.room.member", "@me:x.org", "$4"),
    ]);
    for before in [None, Some(Membership::Invite), Some(Membership::Leave)] {
        let delta = state_delta(StatePlan::Incremental, before, &current, &since);
        assert_eq!(ids(&delta.entries), vec!["$1", "$2", "$4"]);
        assert!(delta.joined_since_last_sync);
    }
}

#[test]
fn room_that_became_encrypted_is_noticed() {
    let plain = state_of(&[("m.room.create", "", "$1")]);
    let encrypted = state_of(&[("m.room.create", "", "$1"), ("m.room.encryption", "", "$2")]);
    assert!(newly_encrypted(&encrypted, &plain));
    assert!(!newly_encrypted(&encrypted, &encrypted));
    assert!(!newly_encrypted(&plain, &plain));
    assert!(!newly_encrypted(&plain, &encrypted));
}
