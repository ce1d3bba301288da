//! The sections of a response that are about one room.

use vstd::prelude::*;
use crate::event::PersistedEvent;
use crate::summary::RoomSummary;
use crate::timeline::{prev_batch, TimelineSlice};
use crate::token::{decimal_digits, format_token, Position};

verus! {

/// Whether something that was last updated at `marker` changed after `since`.
pub open spec fn is_after(marker: u64, since: Position) -> bool {
    marker > since
}

/// Whether something that was last updated at `marker` changed after
/// `since`: a read marker, or who is typing in a room.
pub fn changed_since(marker: u64, since: Position) -> (r: bool)
    ensures
        r == is_after(marker, since),
{
    marker > since
}

/// Whether the unread counts of a room are sent: the timeline has events,
/// or the requester's private read marker moved after `since`.
pub open spec fn wants_counts(
    timeline_len: nat,
    last_privateread_update: u64,
    since: Position,
) -> bool {
    timeline_len > 0 || is_after(last_privateread_update, since)
}

/// Whether the unread counts of a room are sent.
pub fn send_notification_counts(
    timeline_len: usize,
    last_privateread_update: u64,
    since: Position,
) -> (r: bool)
    ensures
        r == wants_counts(timeline_len as nat, last_privateread_update, since),
{
    timeline_len > 0 || last_privateread_update > since
}

/// How many events of a room the requester has not read.
#[derive(Clone, Copy, Debug, PartialEq, Eq, Structural)]
pub struct UnreadCounts {
    /// How many of them highlight the requester.
    pub highlight_count: Option<u64>,
    /// How many of them notify the requester.
    pub notification_count: Option<u64>,
}

impl UnreadCounts {
    /// Whether no count is sent.
    pub open spec fn is_empty_spec(&self) -> bool {
        self.highlight_count is None && self.notification_count is None
    }

    /// Whether no count is sent.
    pub fn is_empty(&self) -> (r: bool)
        ensures
            r == self.is_empty_spec(),
    {
        self.highlight_count.is_none() && self.notification_count.is_none()
    }

    /// The counts of a room whose counts are not sent: left out, not zero.
    pub fn omitted() -> (r: UnreadCounts)
        ensures
            r == (UnreadCounts { highlight_count: None, notification_count: None }),
    {
        UnreadCounts { highlight_count: None, notification_count: None }
    }

    /// The counts of a room whose counts are sent.
    pub fn counted(notification_count: u64, highlight_count: u64) -> (r: UnreadCounts)
        ensures
            r == (UnreadCounts {
                highlight_count: Some(highlight_count),
                notification_count: Some(notification_count),
            }),
    {
        UnreadCounts {
            highlight_count: Some(highlight_count),
            notification_count: Some(notification_count),
        }
    }
}

/// The timeline of a room, as a response carries it.
#[derive(Debug)]
pub struct Timeline {
    /// Whether events were left out between the last sync and this timeline.
    pub limited: bool,
    /// The token that leads back before the timeline.
    pub prev_batch: Option<String>,
    /// The events, oldest first.
    pub events: Vec<PersistedEvent>,
}

impl Timeline {
    /// Whether the timeline holds no event.
    pub open spec fn is_empty_spec(&self) -> bool {
        self.events@.len() == 0
    }

    /// Whether the timeline holds no event. Its flag and token do not count.
    pub fn is_empty(&self) -> (r: bool)
        ensures
            r == self.is_empty_spec(),
    {
        self.events.len() == 0
    }
}

/// What a response says of a room that the requester is joined to.
#[derive(Debug)]
pub struct JoinedRoom {
    /// The requester's private data about the room that changed, as JSON texts.
    pub account_data: Vec<String>,
    /// The room's summary.
    pub summary: RoomSummary,
    /// The unread counts.
    pub unread_notifications: UnreadCounts,
    /// The timeline.
    pub timeline: Timeline,
    /// The events of the state section.
    pub state: Vec<PersistedEvent>,
    /// Read receipts and the typing notice, as JSON texts.
    pub ephemeral: Vec<String>,
}

impl JoinedRoom {
    /// Whether the section says nothing.
    pub open spec fn is_empty_spec(&self) -> bool {
        &&& self.summary.is_empty_spec()
        &&& self.unread_notifications.is_empty_spec()
        &&& self.timeline.is_empty_spec()
        &&& self.state@.len() == 0
        &&& self.account_data@.len() == 0
        &&& self.ephemeral@.len() == 0
    }

    /// Whether the section says nothing: every part of it is empty.
    pub fn is_empty(&self) -> (r: bool)
        ensures
            r == self.is_empty_spec(),
    {
        self.summary.is_empty() && self.unread_notifications.is_empty() && self.timeline.is_empty()
            && self.state.len() == 0 && self.account_data.len() == 0 && self.ephemeral.len() == 0
    }
}

/// The ephemeral events of a room: the read receipts, and after them the
/// typing notice where there is one.
pub open spec fn ephemeral_of(receipts: Seq<String>, typing: Option<String>) -> Seq<String> {
    match typing {
        Some(t) => receipts.push(t),
        None => receipts,
    }
}

/// Puts the section of a joined room together. The timeline is limited
/// exactly where more fresh events exist than it holds. A section that says
/// nothing is not made.
pub fn assemble_joined_room(
    slice: TimelineSlice,
    state: Vec<PersistedEvent>,
    summary: RoomSummary,
    unread_notifications: UnreadCounts,
    account_data: Vec<String>,
    receipts: Vec<String>,
    typing: Option<String>,
) -> (r: Option<JoinedRoom>)
    ensures
        r is None <==> {
            &&& summary.is_empty_spec()
            &&& unread_notifications.is_empty_spec()
            &&& slice.events@.len() == 0
            &&& state@.len() == 0
            &&& account_data@.len() == 0
            &&& ephemeral_of(receipts@, typing).len() == 0
        },
        r is Some ==> {
            let room = r->0;
            &&& room.account_data == account_data
            &&& room.summary == summary
            &&& room.unread_notifications == unread_notifications
            &&& room.state == state
            &&& room.ephemeral@ == ephemeral_of(receipts@, typing)
            &&& room.timeline.events == slice.events
            &&& room.timeline.limited == slice.limited
            &&& slice.events@.len() == 0 ==> room.timeline.prev_batch is None
            &&& slice.events@.len() > 0 ==> room.timeline.prev_batch is Some
                && room.timeline.prev_batch->0@ == decimal_digits(
                slice.events@[0].position as nat,
            )
        },
{
    let mut ephemeral = receipts;
    match typing {
        Some(t) => {
            ephemeral.push(t);
        },
        None => {},
    }
    let first = prev_batch(&slice.events);
    let room = JoinedRoom {
        account_data,
        summary,
        unread_notifications,
        timeline: Timeline {
            limited: slice.limited,
            prev_batch: first,
            events: slice.events,
        },
        state,
        ephemeral,
    };
    if room.is_empty() {
        None
    } else {
        Some(room)
    }
}

/// Whether the requester left a room, or was invited to it, after `since`:
/// the marker of that leave or invite is on record and lies after `since`.
pub open spec fn marked_after(marker: Option<u64>, since: Position) -> bool {
    marker is Some && marker->0 > since
}

/// Whether a leave or an invite is news to a client at `since`. One
/// without a marker on record is not.
pub fn happened_after(marker: Option<u64>, since: Position) -> (r: bool)
    ensures
        r == marked_after(marker, since),
{
    match marker {
        Some(m) => m > since,
        None => false,
    }
}

/// What a response says of a room that the requester left.
#[derive(Debug)]
pub struct LeftRoom {
    /// The requester's private data about the room: none is sent.
    pub account_data: Vec<String>,
    /// The timeline: no event, and a token that leads back from this sync.
    pub timeline: Timeline,
    /// The state at the leave, as JSON texts.
    pub state: Vec<String>,
}

/// The record of a room that the requester left after `since`.
pub fn left_room(state: Vec<String>, next_batch: Position) -> (r: LeftRoom)
    ensures
        r.account_data@.len() == 0,
        r.timeline.events@.len() == 0,
        !r.timeline.limited,
        r.timeline.prev_batch is Some,
        r.timeline.prev_batch->0@ == decimal_digits(next_batch as nat),
        r.state == state,
{
    LeftRoom {
        account_data: Vec::new(),
        timeline: Timeline {
            limited: false,
            prev_batch: Some(format_token(next_batch)),
            events: Vec::new(),
        },
        state,
    }
}

/// What a response says of a room that the requester is invited to.
#[derive(Debug)]
pub struct InvitedRoom {
    /// The part of the room's state that the invite showed, as JSON texts.
    pub invite_state: Vec<String>,
}

/// A room that the requester left or was invited to, as the store lists it.
#[derive(Debug)]
pub struct MarkedRoom {
    /// The room's id.
    pub room_id: String,
    /// The marker of the leave or invite, if one is on record.
    pub marker: Option<u64>,
    /// The state that was kept at the leave or invite, as JSON texts.
    pub state: Vec<String>,
}

/// The rooms of a list whose leave or invite happened after `since`, in
/// the list's order.
pub open spec fn rooms_after(rooms: Seq<MarkedRoom>, since: Position) -> Seq<MarkedRoom>
    decreases rooms.len(),
{
    if rooms.len() == 0 {
        Seq::empty()
    } else {
        let before = rooms_after(rooms.drop_last(), since);
        if marked_after(rooms.last().marker, since) {
            before.push(rooms.last())
        } else {
            before
        }
    }
}

/// Keeps the rooms whose leave or invite happened after `since`; the
/// others are passed over entirely.
pub fn select_rooms_after(rooms: Vec<MarkedRoom>, since: Position) -> (r: Vec<MarkedRoom>)
    ensures
        r@ == rooms_after(rooms@, since),
{
    let ghost all = rooms@;
    let mut kept: Vec<MarkedRoom> = Vec::new();
    for room in it: rooms
        invariant
            it.seq() == all,
            kept@ == rooms_after(all.subrange(0, it.index() as int), since),
    {
        let ghost next = all.subrange(0, it.index() + 1);
        assert(next.drop_last() =~= all.subrange(0, it.index() as int));
        assert(next.last() == room);
        if happened_after(room.marker, since) {
            kept.push(room);
        }
    }
    assert(all.subrange(0, all.len() as int) =~= all);
    kept
}

} // verus!
