use homeserver_sync::event::PersistedEvent;
use homeserver_sync::timeline::{prev_batch, select_timeline, TIMELINE_LIMIT};

fn message(position: u64) -> PersistedEvent {
    PersistedEvent {
        event_id: format!("$m{}:example.org", position),
        position,
        event_type: "m.room.message".to_owned(),
        state_key: None,
        content: r#"{"body":"hi"}"#.to_owned(),
        sender: "@alice:example.org".to_owned(),
        redacts: None,
    }
}

fn log_newest_first(positions: &[u64]) -> Vec<PersistedEvent> {
    positions.iter().map(|p| message(*p)).collect()
}

fn positions(events: &[PersistedEvent]) -> Vec<u64> {
    events.iter().map(|e| e.position).collect()
}

#[test]
fn timeline_holds_events_after_since_oldest_first() {
    let log = log_newest_first(&[9, 7, 5, 3, 1]);
    let slice = select_timeline(&log, 4);
    assert_eq!(positions(&slice.events), vec![5, 7, 9]);
    assert!(!slice.limited);
}

#[test]
fn timeline_from_zero_holds_the_whole_short_log() {
    let log = log_newest_first(&[3, 2, 1]);
    let slice = select_timeline(&log, 0);
    assert_eq!(positions(&slice.events), vec![1, 2, 3]);
    assert!(!slice.limited);
}

#[test]
fn timeline_at_the_frontier_is_empty() {
    let log = log_newest_first(&[9, 7, 5]);
    let slice = select_timeline(&log, 9);
    assert!(slice.events.is_empty());
    assert!(!slice.limited);
    let beyond = select_timeline(&log, 100);
    assert!(beyond.events.is_empty());
    assert!(!beyond.limited);
}

#[test]
fn timeline_of_an_empty_log_is_empty() {
    let slice = select_timeline(&Vec::new(), 0);
    assert!(slice.events.is_empty());
    assert!(!slice.limited);
}

#[test]
fn exactly_ten_fresh_events_are_not_limited() {
    let log = log_newest_first(&[12, 11, 10, 9, 8, 7, 6, 5, 4, 3, 2, 1]);
    let slice = select_timeline(&log, 2);
    assert_eq!(slice.events.len(), TIMELINE_LIMIT);
    assert_eq!(positions(&slice.events), vec![3, 4, 5, 6, 7, 8, 9, 10, 11, 12]);
    assert!(!slice.limited);
}

#[test]
fn eleven_fresh_events_are_limited_to_the_newest_ten() {
    let log = log_newest_first(&[12, 11, 10, 9, 8, 7, 6, 5, 4, 3, 2, 1]);
    let slice = select_timeline(&log, 1);
    assert_eq!(positions(&slice.events), vec![3, 4, 5, 6, 7, 8, 9, 10, 11, 12]);
    assert!(slice.limited);
}

#[test]
fn many_fresh_events_are_limited() {
    let all: Vec<u64> = (1..=50).rev().collect();
    let slice = select_timeline(&log_newest_first(&all), 0);
    assert_eq!(positions(&slice.events), (41..=50).collect::<Vec<u64>>());
    assert!(slice.limited);
}

#[test]
fn walk_stops_at_the_first_event_that_is_not_fresh() {
    let log = log_newest_first(&[9, 2, 8]);
    let slice = select_timeline(&log, 5);
    assert_eq!(positions(&slice.events), vec![9]);
    assert!(!slice.limited);
}

#[test]
fn delivered_events_are_the_logged_ones() {
    let log = log_newest_first(&[4, 3]);
    let slice = select_timeline(&log, 0);
    assert_eq!(slice.events[0].event_id, "$m3:example.org");
    assert_eq!(slice.events[1].event_id, "$m4:example.org");
    assert_eq!(slice.events[1].content, r#"{"body":"hi"}"#);
}

#[test]
fn prev_batch_is_the_oldest_delivered_position() {
    let log = log_newest_first(&[9, 7, 5, 3, 1]);
    let slice = select_timeline(&log, 4);
    assert_eq!(prev_batch(&slice.events), Some("5".to_owned()));
    assert_eq!(prev_batch(&Vec::new()), None);
}

#[test]
fn appended_event_shows_up_last_in_the_next_timeline() {
    let mut log = log_newest_first(&[3, 2, 1]);
    let since = 3;
    assert!(select_timeline(&log, since).events.is_empty());
    log.insert(0, message(4));
    let slice = select_timeline(&log, since);
    assert_eq!(positions(&slice.events), vec![4]);
}
