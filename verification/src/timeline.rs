//! The timeline of one room: the newest events after the client's position.

use vstd::prelude::*;
use crate::event::PersistedEvent;
use crate::token::{decimal_digits, format_token, Position};

verus! {

/// How many events one sync delivers per room at most.
pub const TIMELINE_LIMIT: usize = 10;

/// How many events at the head of a newest-first log lie after `since`: the
/// walk stops at the first event that does not.
pub open spec fn fresh_len(events: Seq<PersistedEvent>, since: Position) -> nat
    decreases events.len(),
{
    if events.len() == 0 || events[0].position <= since {
        0
    } else {
        1 + fresh_len(events.drop_first(), since)
    }
}

/// How many events are delivered: the fresh ones, but no more than the limit.
pub open spec fn delivered_len(events: Seq<PersistedEvent>, since: Position) -> nat {
    if fresh_len(events, since) <= TIMELINE_LIMIT {
        fresh_len(events, since)
    } else {
        TIMELINE_LIMIT as nat
    }
}

/// The events that are delivered, oldest first.
pub open spec fn timeline_events(events: Seq<PersistedEvent>, since: Position) -> Seq<
    PersistedEvent,
> {
    events.subrange(0, delivered_len(events, since) as int).reverse()
}

/// Whether fresh events were left out because of the limit.
pub open spec fn timeline_limited(events: Seq<PersistedEvent>, since: Position) -> bool {
    fresh_len(events, since) > TIMELINE_LIMIT
}

/// Whether a log is newest first: positions fall strictly from one event to the next.
pub open spec fn newest_first(events: Seq<PersistedEvent>) -> bool {
    forall|i: int, j: int|
        0 <= i < j < events.len() ==> (#[trigger] events[i]).position > (
        #[trigger] events[j]).position
}

/// The part of a room's log that one sync delivers.
#[derive(Debug)]
pub struct TimelineSlice {
    /// The delivered events, oldest first.
    pub events: Vec<PersistedEvent>,
    /// Whether more fresh events exist than were delivered.
    pub limited: bool,
}

/// Where the fresh head of a log ends.
pub proof fn lemma_fresh_len(events: Seq<PersistedEvent>, since: Position, n: int)
    requires
        0 <= n <= events.len(),
        forall|j: int| 0 <= j < n ==> (#[trigger] events[j]).position > since,
    ensures
        fresh_len(events, since) >= n,
        n == events.len() || events[n].position <= since ==> fresh_len(events, since) == n,
    decreases n,
{
    if n > 0 {
        let rest = events.drop_first();
        assert(events[0].position > since);
        assert forall|j: int| 0 <= j < n - 1 implies (#[trigger] rest[j]).position > since by {
            assert(rest[j] == events[j + 1]);
        }
        lemma_fresh_len(rest, since, n - 1);
        if n < events.len() {
            assert(rest[n - 1] == events[n]);
        }
    }
}

/// Every event within the fresh head lies after `since`, and the head ends
/// at the log's end or at an event that does not.
pub proof fn lemma_fresh_head(events: Seq<PersistedEvent>, since: Position)
    ensures
        fresh_len(events, since) <= events.len(),
        forall|j: int|
            0 <= j < fresh_len(events, since) ==> (#[trigger] events[j]).position > since,
        fresh_len(events, since) < events.len() ==> events[fresh_len(
            events,
            since,
        ) as int].position <= since,
    decreases events.len(),
{
    if events.len() == 0 || events[0].position <= since {
    } else {
        let rest = events.drop_first();
        lemma_fresh_head(rest, since);
        let n = fresh_len(events, since);
        assert forall|j: int| 0 <= j < n implies (#[trigger] events[j]).position > since by {
            if j > 0 {
                assert(rest[j - 1] == events[j]);
            }
        }
        if n < events.len() {
            assert(rest[n - 1] == events[n as int]);
        }
    }
}

/// Takes the newest events after `since` from a room's log, which is handed
/// over newest first, and puts them in the order of delivery. The walk ends
/// at the first event that is not after `since`.
pub fn select_timeline(log: &Vec<PersistedEvent>, since: Position) -> (r: TimelineSlice)
    ensures
        r.events@ == timeline_events(log@, since),
        r.limited == timeline_limited(log@, since),
        r.events@.len() <= TIMELINE_LIMIT,
{
    let mut n: usize = 0;
    while n < log.len() && n <= TIMELINE_LIMIT && log[n].position > since
        invariant
            0 <= n <= log.len(),
            n <= TIMELINE_LIMIT + 1,
            forall|j: int| 0 <= j < n ==> (#[trigger] log@[j]).position > since,
        decreases log.len() - n,
    {
        n = n + 1;
    }
    proof {
        lemma_fresh_len(log@, since, n as int);
    }
    let limited = n > TIMELINE_LIMIT;
    let take: usize = if limited {
        TIMELINE_LIMIT
    } else {
        n
    };
    assert(take == delivered_len(log@, since));
    let mut events: Vec<PersistedEvent> = Vec::new();
    let mut k: usize = take;
    while k > 0
        invariant
            0 <= k <= take <= log.len(),
            events@.len() == take - k,
            forall|j: int| 0 <= j < events@.len() ==> events@[j] == log@[take - 1 - j],
        decreases k,
    {
        k = k - 1;
        events.push(log[k].clone());
    }
    assert(events@ =~= log@.subrange(0, take as int).reverse());
    TimelineSlice { events, limited }
}

/// The token that leads back before a timeline: the position of its oldest
/// event. An empty timeline has none.
pub fn prev_batch(events: &Vec<PersistedEvent>) -> (r: Option<String>)
    ensures
        events@.len() == 0 ==> r is None,
        events@.len() > 0 ==> r is Some && r->0@ == decimal_digits(events@[0].position as nat),
{
    if events.len() == 0 {
        None
    } else {
        Some(format_token(events[0].position))
    }
}

/// A sync from the newest position of a room's log delivers nothing from it.
pub proof fn lemma_frontier_is_quiet(events: Seq<PersistedEvent>, frontier: Position)
    requires
        forall|i: int| 0 <= i < events.len() ==> (#[trigger] events[i]).position <= frontier,
    ensures
        timeline_events(events, frontier).len() == 0,
        !timeline_limited(events, frontier),
{
}

/// The timeline is decided by the first eleven events of the log: a
/// longer log gives the same timeline as its beginning.
pub proof fn lemma_timeline_reads_a_bounded_head(
    log: Seq<PersistedEvent>,
    n: int,
    since: Position,
)
    requires
        TIMELINE_LIMIT < n <= log.len(),
    ensures
        timeline_events(log.subrange(0, n), since) == timeline_events(log, since),
        timeline_limited(log.subrange(0, n), since) == timeline_limited(log, since),
{
    let head = log.subrange(0, n);
    lemma_fresh_head(log, since);
    let f = fresh_len(log, since) as int;
    let m = if f <= n { f } else { n };
    assert forall|j: int| 0 <= j < m implies (#[trigger] head[j]).position > since by {
        assert(head[j] == log[j]);
    }
    lemma_fresh_len(head, since, m);
    if f < n {
        assert(head[f] == log[f]);
        assert(fresh_len(head, since) == f);
    } else {
        assert(fresh_len(head, since) == n);
    }
    let d = delivered_len(log, since) as int;
    assert(delivered_len(head, since) == d);
    assert(head.subrange(0, d) =~= log.subrange(0, d));
}

/// An event that was appended after `since` is delivered, as the newest of
/// its timeline.
pub proof fn lemma_appended_event_is_delivered(
    log: Seq<PersistedEvent>,
    e: PersistedEvent,
    since: Position,
)
    requires
        e.position > since,
    ensures
        timeline_events(seq![e] + log, since).len() > 0,
        timeline_events(seq![e] + log, since).last() == e,
{
    let grown = seq![e] + log;
    assert(grown[0] == e);
    assert(fresh_len(grown, since) >= 1);
    let n = delivered_len(grown, since) as int;
    lemma_fresh_head(grown, since);
    assert(1 <= n <= grown.len());
    let t = timeline_events(grown, since);
    assert(t.len() == n);
    assert(t[n - 1] == grown.subrange(0, n)[0]);
}

/// In a log that is newest first, the fresh head holds every event after
/// `since` and no other.
pub proof fn lemma_fresh_head_is_complete(events: Seq<PersistedEvent>, since: Position)
    requires
        newest_first(events),
    ensures
        forall|i: int|
            0 <= i < events.len() ==> ((#[trigger] events[i]).position > since <==> i < fresh_len(
                events,
                since,
            )),
{
    lemma_fresh_head(events, since);
    let n = fresh_len(events, since) as int;
    assert forall|i: int| 0 <= i < events.len() implies ((#[trigger] events[i]).position > since
        <==> i < n) by {
        if i >= n {
            assert(events[n].position <= since);
            if i > n {
                assert(events[n].position > events[i].position);
            }
        }
    }
}

/// The delivered events come oldest first where the log came newest first,
/// and each of them lies after `since`.
pub proof fn lemma_timeline_order(events: Seq<PersistedEvent>, since: Position)
    requires
        newest_first(events),
    ensures
        forall|i: int, j: int|
            0 <= i < j < timeline_events(events, since).len() ==> (#[trigger] timeline_events(
                events,
                since,
            )[i]).position < (#[trigger] timeline_events(events, since)[j]).position,
        forall|i: int|
            0 <= i < timeline_events(events, since).len() ==> (#[trigger] timeline_events(
                events,
                since,
            )[i]).position > since,
{
    lemma_fresh_head(events, since);
    let t = timeline_events(events, since);
    let take = delivered_len(events, since) as int;
    assert forall|i: int| 0 <= i < t.len() implies (#[trigger] t[i]).position > since by {
        assert(t[i] == events[take - 1 - i]);
    }
    assert forall|i: int, j: int| 0 <= i < j < t.len() implies (#[trigger] t[i]).position < (
    #[trigger] t[j]).position by {
        assert(t[i] == events[take - 1 - i]);
        assert(t[j] == events[take - 1 - j]);
    }
}

} // verus!
