//! A room's summary: its member counts and the few members that stand for it.

use vstd::prelude::*;
use vstd::string::*;
use crate::strings::{list_contains, str_set, str_views};
use crate::delta::StatePlan;
use crate::event::{member_facts, member_facts_of, MemberFacts, Membership, PersistedEvent};

verus! {

/// How many heroes a summary names at most.
pub const HERO_LIMIT: usize = 5;

/// Whether a membership event puts its user forward as a hero: the event
/// says joined or invited, its state key is a user id, and the user is
/// still joined or invited now.
pub open spec fn hero_candidate(f: MemberFacts, present: Set<Seq<char>>) -> bool {
    &&& f.user_valid
    &&& (f.membership == Some(Membership::Join) || f.membership == Some(Membership::Invite))
    &&& present.contains(f.user@)
}

/// The heroes of a room: walking its membership events in order, each
/// candidate that is not the requester and was not named before, until
/// there are five.
pub open spec fn heroes_of(
    facts: Seq<MemberFacts>,
    sender: Seq<char>,
    present: Set<Seq<char>>,
) -> Seq<Seq<char>>
    decreases facts.len(),
{
    if facts.len() == 0 {
        Seq::empty()
    } else {
        let before = heroes_of(facts.drop_last(), sender, present);
        let f = facts.last();
        if before.len() < HERO_LIMIT && hero_candidate(f, present) && f.user@ != sender
            && !before.contains(f.user@) {
            before.push(f.user@)
        } else {
            before
        }
    }
}

/// There are at most five heroes, the requester is none of them, none is
/// named twice, and each is still joined or invited.
pub proof fn lemma_heroes(facts: Seq<MemberFacts>, sender: Seq<char>, present: Set<Seq<char>>)
    ensures
        heroes_of(facts, sender, present).len() <= HERO_LIMIT,
        !heroes_of(facts, sender, present).contains(sender),
        heroes_of(facts, sender, present).no_duplicates(),
        forall|i: int|
            0 <= i < heroes_of(facts, sender, present).len() ==> present.contains(
                #[trigger] heroes_of(facts, sender, present)[i],
            ),
    decreases facts.len(),
{
    if facts.len() > 0 {
        lemma_heroes(facts.drop_last(), sender, present);
        let before = heroes_of(facts.drop_last(), sender, present);
        let h = heroes_of(facts, sender, present);
        if h != before {
            let u = facts.last().user@;
            assert(h == before.push(u));
            assert(!h.contains(sender)) by {
                if h.contains(sender) {
                    let k = choose|k: int| 0 <= k < h.len() && h[k] == sender;
                    if k < before.len() {
                        assert(before[k] == sender);
                    }
                }
            }
            assert forall|i: int, j: int| 0 <= i < h.len() && 0 <= j < h.len() && i != j implies h[i]
                != h[j] by {
                if i < before.len() && j < before.len() {
                    assert(before[i] != before[j]);
                } else if i < before.len() {
                    assert(before[i] == h[i]);
                } else {
                    assert(before[j] == h[j]);
                }
            }
            assert forall|i: int| 0 <= i < h.len() implies present.contains(#[trigger] h[i]) by {
                if i < before.len() {
                    assert(before[i] == h[i]);
                }
            }
        }
    }
}

/// Names the heroes of a room from what its membership events say. `joined`
/// and `invited` list the users who are joined or invited now.
pub fn select_heroes(
    facts: &Vec<MemberFacts>,
    sender: &str,
    joined: &Vec<String>,
    invited: &Vec<String>,
) -> (r: Vec<String>)
    ensures
        str_views(r@) == heroes_of(facts@, sender@, str_set(joined@).union(str_set(invited@))),
        r@.len() <= HERO_LIMIT,
        !str_views(r@).contains(sender@),
        str_views(r@).no_duplicates(),
{
    let ghost present = str_set(joined@).union(str_set(invited@));
    let me = String::from_str(sender);
    let mut heroes: Vec<String> = Vec::new();
    let mut i: usize = 0;
    while i < facts.len()
        invariant
            0 <= i <= facts@.len(),
            me@ == sender@,
            present == str_set(joined@).union(str_set(invited@)),
            str_views(heroes@) == heroes_of(facts@.subrange(0, i as int), sender@, present),
        decreases facts@.len() - i,
    {
        let f = &facts[i];
        let ghost next = facts@.subrange(0, i + 1);
        assert(next.drop_last() =~= facts@.subrange(0, i as int));
        assert(next.last() == *f);
        let says_member = match f.membership {
            Some(Membership::Join) => true,
            Some(Membership::Invite) => true,
            _ => false,
        };
        if heroes.len() < HERO_LIMIT && f.user_valid && says_member && (list_contains(
            joined,
            &f.user,
        ) || list_contains(invited, &f.user)) && !(f.user == me) && !list_contains(
            &heroes,
            &f.user,
        ) {
            let ghost before = str_views(heroes@);
            heroes.push(f.user.clone());
            assert(str_views(heroes@) =~= before.push(f.user@));
        }
        i = i + 1;
    }
    assert(facts@.subrange(0, i as int) =~= facts@);
    proof {
        lemma_heroes(facts@, sender@, present);
    }
    heroes
}

/// What the membership events among a list of events say, in order.
pub open spec fn facts_of(events: Seq<PersistedEvent>) -> Seq<MemberFacts>
    decreases events.len(),
{
    if events.len() == 0 {
        Seq::empty()
    } else {
        let before = facts_of(events.drop_last());
        match member_facts_of(events.last()) {
            Some(f) => before.push(f),
            None => before,
        }
    }
}

/// Reads what the membership events among a list of events say. Events of
/// other types are passed over.
pub fn collect_member_facts(events: &Vec<PersistedEvent>) -> (r: Vec<MemberFacts>)
    ensures
        r@ == facts_of(events@),
{
    let mut out: Vec<MemberFacts> = Vec::new();
    let mut i: usize = 0;
    while i < events.len()
        invariant
            0 <= i <= events@.len(),
            out@ == facts_of(events@.subrange(0, i as int)),
        decreases events@.len() - i,
    {
        let ghost next = events@.subrange(0, i + 1);
        assert(next.drop_last() =~= events@.subrange(0, i as int));
        assert(next.last() == events@[i as int]);
        match member_facts(&events[i]) {
            Some(f) => {
                out.push(f);
            },
            None => {},
        }
        i = i + 1;
    }
    assert(events@.subrange(0, i as int) =~= events@);
    out
}

/// The summary of a joined room.
#[derive(Debug)]
pub struct RoomSummary {
    /// Up to five members other than the requester.
    pub heroes: Vec<String>,
    /// How many users are joined, where the summary was made anew.
    pub joined_member_count: Option<u64>,
    /// How many users are invited, where the summary was made anew.
    pub invited_member_count: Option<u64>,
}

impl RoomSummary {
    /// Whether the summary says nothing.
    pub open spec fn is_empty_spec(&self) -> bool {
        self.heroes@.len() == 0 && self.joined_member_count is None
            && self.invited_member_count is None
    }

    /// Whether the summary says nothing: no hero and no count.
    pub fn is_empty(&self) -> (r: bool)
        ensures
            r == self.is_empty_spec(),
    {
        self.heroes.len() == 0 && self.joined_member_count.is_none()
            && self.invited_member_count.is_none()
    }

    /// The summary of a room whose membership did not change.
    pub fn unchanged() -> (r: RoomSummary)
        ensures
            r.is_empty_spec(),
    {
        RoomSummary { heroes: Vec::new(), joined_member_count: None, invited_member_count: None }
    }
}

/// Makes a room's summary anew from what its membership events say: both
/// counts, and up to five heroes.
pub fn summarize(
    facts: &Vec<MemberFacts>,
    sender: &str,
    joined_count: u64,
    invited_count: u64,
    joined: &Vec<String>,
    invited: &Vec<String>,
) -> (r: RoomSummary)
    ensures
        r.joined_member_count == Some(joined_count),
        r.invited_member_count == Some(invited_count),
        str_views(r.heroes@) == heroes_of(
            facts@,
            sender@,
            str_set(joined@).union(str_set(invited@)),
        ),
        r.heroes@.len() <= HERO_LIMIT,
        !str_views(r.heroes@).contains(sender@),
        str_views(r.heroes@).no_duplicates(),
{
    RoomSummary {
        heroes: select_heroes(facts, sender, joined, invited),
        joined_member_count: Some(joined_count),
        invited_member_count: Some(invited_count),
    }
}

/// Makes a room's summary anew from all events of the room, in the order
/// in which they were appended.
pub fn calculate_counts(
    events: &Vec<PersistedEvent>,
    sender: &str,
    joined_count: u64,
    invited_count: u64,
    joined: &Vec<String>,
    invited: &Vec<String>,
) -> (r: RoomSummary)
    ensures
        r.joined_member_count == Some(joined_count),
        r.invited_member_count == Some(invited_count),
        str_views(r.heroes@) == heroes_of(
            facts_of(events@),
            sender@,
            str_set(joined@).union(str_set(invited@)),
        ),
        r.heroes@.len() <= HERO_LIMIT,
        !str_views(r.heroes@).contains(sender@),
        str_views(r.heroes@).no_duplicates(),
{
    let facts = collect_member_facts(events);
    summarize(&facts, sender, joined_count, invited_count, joined, invited)
}

/// Whether any of a list of events is a membership event.
pub open spec fn any_member_event(events: Seq<PersistedEvent>) -> bool {
    exists|i: int| 0 <= i < events.len() && (#[trigger] events[i]).is_member()
}

/// Whether the member counts are sent: whether the state section holds a
/// membership event.
pub fn send_member_count(state_events: &Vec<PersistedEvent>) -> (r: bool)
    ensures
        r == any_member_event(state_events@),
{
    let mut i: usize = 0;
    while i < state_events.len()
        invariant
            0 <= i <= state_events@.len(),
            forall|j: int| 0 <= j < i ==> !(#[trigger] state_events@[j]).is_member(),
        decreases state_events@.len() - i,
    {
        if state_events[i].is_member_event() {
            return true;
        }
        i = i + 1;
    }
    false
}

/// Whether a room's summary is made anew: on an initial sync, and where
/// the state section holds a membership event.
pub open spec fn wants_summary(plan: StatePlan, state_events: Seq<PersistedEvent>) -> bool {
    match plan {
        StatePlan::Initial => true,
        StatePlan::Unchanged => false,
        StatePlan::Incremental => any_member_event(state_events),
    }
}

/// Whether a room's summary is made anew. Where it is not, the summary
/// stays empty.
pub fn needs_summary(plan: StatePlan, state_events: &Vec<PersistedEvent>) -> (r: bool)
    ensures
        r == wants_summary(plan, state_events@),
{
    match plan {
        StatePlan::Initial => true,
        StatePlan::Unchanged => false,
        StatePlan::Incremental => send_member_count(state_events),
    }
}

} // verus!
