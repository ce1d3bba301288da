use homeserver_sync::event::PersistedEvent;
use homeserver_sync::rooms::{
    assemble_joined_room, changed_since, happened_after, left_room, select_rooms_after,
    send_notification_counts, MarkedRoom, UnreadCounts,
};
use homeserver_sync::summary::RoomSummary;
use homeserver_sync::timeline::TimelineSlice;

fn message(position: u64) -> PersistedEvent {
    PersistedEvent {
        event_id: format!("$m{}", position),
        position,
        event_type: "m.room.message".to_owned(),
        state_key: None,
        content: "{}".to_owned(),
        sender: "@a:x.org".to_owned(),
        redacts: None,
    }
}

fn empty_slice() -> TimelineSlice {
    TimelineSlice { events: Vec::new(), limited: false }
}

fn marked(id: &str, marker: Option<u64>) -> MarkedRoom {
    MarkedRoom { room_id: id.to_owned(), marker, state: vec![format!("state of {}", id)] }
}

#[test]
fn marker_after_since_is_a_change() {
    assert!(changed_since(6, 5));
    assert!(!changed_since(5, 5));
    assert!(!changed_since(4, 5));
    assert!(!changed_since(0, 0));
}

#[test]
fn counts_are_sent_with_events_or_a_moved_read_marker() {
    assert!(send_notification_counts(1, 0, 5));
    assert!(send_notification_counts(0, 6, 5));
    assert!(send_notification_counts(3, 9, 5));
    assert!(!send_notification_counts(0, 5, 5));
    assert!(!send_notification_counts(0, 0, 5));
}

#[test]
fn omitted_counts_are_absent_not_zero() {
    let omitted = UnreadCounts::omitted();
    assert_eq!(omitted.notification_count, None);
    assert_eq!(omitted.highlight_count, None);
    assert!(omitted.is_empty());
    let counted = UnreadCounts::counted(3, 1);
    assert_eq!(counted.notification_count, Some(3));
    assert_eq!(counted.highlight_count, Some(1));
    assert!(!counted.is_empty());
    assert!(!UnreadCounts::counted(0, 0).is_empty());
}

#[test]
fn joined_room_that_says_nothing_is_not_made() {
    let room = assemble_joined_room(
        empty_slice(),
        Vec::new(),
        RoomSummary::unchanged(),
        UnreadCounts::omitted(),
        Vec::new(),
        Vec::new(),
        None,
    );
    assert!(room.is_none());
}

#[test]
fn limited_flag_alone_does_not_make_a_room() {
    let room = assemble_joined_room(
        TimelineSlice { events: Vec::new(), limited: true },
        Vec::new(),
        RoomSummary::unchanged(),
        UnreadCounts::omitted(),
        Vec::new(),
        Vec::new(),
        None,
    );
    assert!(room.is_none());
}

#[test]
fn joined_room_carries_its_parts() {
    let room = assemble_joined_room(
        TimelineSlice { events: vec![message(5), message(7)], limited: false },
        vec![message(5)],
        RoomSummary {
            heroes: vec!["@b:x.org".to_owned()],
            joined_member_count: Some(2),
            invited_member_count: Some(0),
        },
        UnreadCounts::counted(2, 0),
        vec!["tag".to_owned()],
        vec!["receipt".to_owned()],
        Some("typing".to_owned()),
    )
    .unwrap();
    assert_eq!(room.timeline.events.len(), 2);
    assert_eq!(room.timeline.events[0].position, 5);
    assert_eq!(room.timeline.prev_batch, Some("5".to_owned()));
    assert!(!room.timeline.limited);
    assert_eq!(room.state.len(), 1);
    assert_eq!(room.summary.heroes, vec!["@b:x.org".to_owned()]);
    assert_eq!(room.unread_notifications, UnreadCounts::counted(2, 0));
    assert_eq!(room.account_data, vec!["tag".to_owned()]);
    assert_eq!(room.ephemeral, vec!["receipt".to_owned(), "typing".to_owned()]);
    assert!(!room.is_empty());
}

#[test]
fn timeline_is_limited_exactly_when_events_were_left_out() {
    let whole = assemble_joined_room(
        TimelineSlice { events: vec![message(5)], limited: false },
        Vec::new(),
        RoomSummary::unchanged(),
        UnreadCounts::omitted(),
        Vec::new(),
        Vec::new(),
        None,
    )
    .unwrap();
    assert!(!whole.timeline.limited);
    let cut = assemble_joined_room(
        TimelineSlice { events: vec![message(5)], limited: true },
        Vec::new(),
        RoomSummary::unchanged(),
        UnreadCounts::omitted(),
        Vec::new(),
        Vec::new(),
        None,
    )
    .unwrap();
    assert!(cut.timeline.limited);
}

#[test]
fn typing_notice_alone_makes_a_room() {
    let room = assemble_joined_room(
        empty_slice(),
        Vec::new(),
        RoomSummary::unchanged(),
        UnreadCounts::omitted(),
        Vec::new(),
        Vec::new(),
        Some("typing".to_owned()),
    )
    .unwrap();
    assert_eq!(room.ephemeral, vec!["typing".to_owned()]);
    assert_eq!(room.timeline.prev_batch, None);
}

#[test]
fn leave_or_invite_counts_only_after_since() {
    assert!(happened_after(Some(6), 5));
    assert!(!happened_after(Some(5), 5));
    assert!(!happened_after(Some(4), 5));
    assert!(!happened_after(None, 5));
    assert!(!happened_after(None, 0));
    assert!(happened_after(Some(1), 0));
}

#[test]
fn rooms_left_before_since_are_skipped() {
    let rooms = vec![
        marked("!a:x.org", Some(3)),
        marked("!b:x.org", Some(9)),
        marked("!c:x.org", None),
        marked("!d:x.org", Some(6)),
        marked("!e:x.org", Some(5)),
    ];
    let kept = select_rooms_after(rooms, 5);
    let ids: Vec<&str> = kept.iter().map(|r| r.room_id.as_str()).collect();
    assert_eq!(ids, vec!["!b:x.org", "!d:x.org"]);
    assert_eq!(kept[0].state, vec!["state of !b:x.org".to_owned()]);
    assert!(select_rooms_after(Vec::new(), 0).is_empty());
}

#[test]
fn left_room_record_is_minimal() {
    let record = left_room(vec!["leave event".to_owned()], 42);
    assert!(record.account_data.is_empty());
    assert!(record.timeline.events.is_empty());
    assert!(!record.timeline.limited);
    assert_eq!(record.timeline.prev_batch, Some("42".to_owned()));
    assert_eq!(record.state, vec!["leave event".to_owned()]);
}
