//! Device lists: whose keys the requester should fetch anew, and whose keys
//! they may forget, as membership in encrypted rooms changes.

use vstd::prelude::*;
use vstd::string::*;
use crate::delta::{became_encrypted, newly_encrypted, StatePlan};
use crate::event::{MemberFacts, Membership, PersistedEvent};
use crate::state::StateMap;
use crate::summary::{collect_member_facts, facts_of, needs_summary, wants_summary};
use crate::users::UserSet;

verus! {

/// A room that the requester shares with another user.
#[derive(Debug)]
pub struct SharedRoom {
    /// The room's id.
    pub room_id: String,
    /// Whether the room is encrypted; nothing where that could not be found out.
    pub encrypted: Option<bool>,
}

/// Whether one of the shared rooms, other than `ignore_room`, is known to
/// be encrypted.
pub open spec fn shares_encrypted(shared: Seq<SharedRoom>, ignore_room: Seq<char>) -> bool {
    exists|i: int|
        0 <= i < shared.len() && (#[trigger] shared[i]).room_id@ != ignore_room
            && shared[i].encrypted == Some(true)
}

/// Whether one of the shared rooms is known to be encrypted.
pub open spec fn shares_any_encrypted(shared: Seq<SharedRoom>) -> bool {
    exists|i: int| 0 <= i < shared.len() && (#[trigger] shared[i]).encrypted == Some(true)
}

/// Whether the requester shares an encrypted room with a user, not counting
/// `ignore_room`. `shared` lists the rooms that the two share.
pub fn share_encrypted_room(shared: &Vec<SharedRoom>, ignore_room: &str) -> (r: bool)
    ensures
        r == shares_encrypted(shared@, ignore_room@),
{
    let ignore = String::from_str(ignore_room);
    let mut i: usize = 0;
    while i < shared.len()
        invariant
            0 <= i <= shared@.len(),
            ignore@ == ignore_room@,
            forall|j: int|
                0 <= j < i ==> !((#[trigger] shared@[j]).room_id@ != ignore_room@
                    && shared@[j].encrypted == Some(true)),
        decreases shared@.len() - i,
    {
        let room = &shared[i];
        let encrypted = match room.encrypted {
            Some(e) => e,
            None => false,
        };
        if encrypted && !(room.room_id == ignore) {
            return true;
        }
        i = i + 1;
    }
    false
}

/// Whether the requester still shares an encrypted room with a user.
pub fn still_shares_encrypted_room(shared: &Vec<SharedRoom>) -> (r: bool)
    ensures
        r == shares_any_encrypted(shared@),
{
    let mut i: usize = 0;
    while i < shared.len()
        invariant
            0 <= i <= shared@.len(),
            forall|j: int| 0 <= j < i ==> (#[trigger] shared@[j]).encrypted != Some(true),
        decreases shared@.len() - i,
    {
        match shared[i].encrypted {
            Some(true) => {
                return true;
            },
            _ => {},
        }
        i = i + 1;
    }
    false
}

/// What a membership event in the state section of an encrypted room means
/// for the requester's device lists.
#[derive(Clone, Copy, Debug, PartialEq, Eq, Structural)]
pub enum MemberChange {
    /// Nothing: the event is about the requester, is about neither a join
    /// nor a leave, or is a record that does not read.
    Nothing,
    /// Another user joined.
    Joined,
    /// Another user left.
    Left,
}

/// What a membership event means. A record that does not read is passed
/// over, not held against the request: one whose state key is no user id,
/// and one whose content states no membership. So are the requester's own
/// events.
pub open spec fn member_change_of(f: MemberFacts, sender: Seq<char>) -> MemberChange {
    if !f.user_valid || f.user@ == sender {
        MemberChange::Nothing
    } else {
        match f.membership {
            Some(Membership::Join) => MemberChange::Joined,
            Some(Membership::Leave) => MemberChange::Left,
            _ => MemberChange::Nothing,
        }
    }
}

/// Says what a membership event means for the requester's device lists.
pub fn member_change(f: &MemberFacts, sender: &str) -> (r: MemberChange)
    ensures
        r == member_change_of(*f, sender@),
{
    let me = String::from_str(sender);
    change_for(f, &me)
}

/// What a membership event means, with the requester's id at hand.
fn change_for(f: &MemberFacts, sender: &String) -> (r: MemberChange)
    ensures
        r == member_change_of(*f, sender@),
{
    if !f.user_valid || f.user == *sender {
        MemberChange::Nothing
    } else {
        match f.membership {
            Some(Membership::Join) => MemberChange::Joined,
            Some(Membership::Leave) => MemberChange::Left,
            _ => MemberChange::Nothing,
        }
    }
}

/// The users whose membership events mean `change`, in the events' order.
pub open spec fn users_with(
    facts: Seq<MemberFacts>,
    sender: Seq<char>,
    change: MemberChange,
) -> Seq<String>
    decreases facts.len(),
{
    if facts.len() == 0 {
        Seq::empty()
    } else {
        let before = users_with(facts.drop_last(), sender, change);
        if member_change_of(facts.last(), sender) == change {
            before.push(facts.last().user)
        } else {
            before
        }
    }
}

/// The other users who joined and who left, as the state section of an
/// encrypted room shows it.
#[derive(Debug)]
pub struct MemberChanges {
    /// The users who joined, one entry for each event that says so.
    pub joined: Vec<String>,
    /// The users who left, one entry for each event that says so.
    pub left: Vec<String>,
}

/// Sorts the membership events of an encrypted room's state section into
/// joins and leaves of other users. Records that do not read are passed over.
pub fn encrypted_room_changes(facts: &Vec<MemberFacts>, sender: &str) -> (r: MemberChanges)
    ensures
        r.joined@ == users_with(facts@, sender@, MemberChange::Joined),
        r.left@ == users_with(facts@, sender@, MemberChange::Left),
{
    let me = String::from_str(sender);
    let mut joined: Vec<String> = Vec::new();
    let mut left: Vec<String> = Vec::new();
    let mut i: usize = 0;
    while i < facts.len()
        invariant
            0 <= i <= facts@.len(),
            me@ == sender@,
            joined@ == users_with(facts@.subrange(0, i as int), sender@, MemberChange::Joined),
            left@ == users_with(facts@.subrange(0, i as int), sender@, MemberChange::Left),
        decreases facts@.len() - i,
    {
        let f = &facts[i];
        let ghost next = facts@.subrange(0, i + 1);
        assert(next.drop_last() =~= facts@.subrange(0, i as int));
        assert(next.last() == *f);
        match change_for(f, &me) {
            MemberChange::Joined => {
                joined.push(f.user.clone());
            },
            MemberChange::Left => {
                left.push(f.user.clone());
            },
            MemberChange::Nothing => {},
        }
        i = i + 1;
    }
    assert(facts@.subrange(0, i as int) =~= facts@);
    MemberChanges { joined, left }
}

/// Whether the membership events of a room's state section are looked at
/// for device lists: only where two snapshots are compared and the room
/// is encrypted now.
pub open spec fn tracks_members(plan: StatePlan, encrypted: bool) -> bool {
    plan == StatePlan::Incremental && encrypted
}

/// The users whose membership events in a room's state section mean
/// `change` for the requester's device lists: none where the room is not
/// looked at, whatever its events hold.
pub open spec fn room_users_with(
    plan: StatePlan,
    encrypted: bool,
    state_events: Seq<PersistedEvent>,
    sender: Seq<char>,
    change: MemberChange,
) -> Seq<String> {
    if tracks_members(plan, encrypted) {
        users_with(facts_of(state_events), sender, change)
    } else {
        Seq::empty()
    }
}

/// The joins and leaves that a room's state section means for the
/// requester's device lists. Where the room is not looked at there are
/// none, whatever its events hold.
pub fn room_member_changes(
    plan: StatePlan,
    encrypted: bool,
    state_events: &Vec<PersistedEvent>,
    sender: &str,
) -> (r: MemberChanges)
    ensures
        r.joined@ == room_users_with(plan, encrypted, state_events@, sender@, MemberChange::Joined),
        r.left@ == room_users_with(plan, encrypted, state_events@, sender@, MemberChange::Left),
{
    match plan {
        StatePlan::Incremental => {
            if encrypted {
                let facts = collect_member_facts(state_events);
                encrypted_room_changes(&facts, sender)
            } else {
                MemberChanges { joined: Vec::new(), left: Vec::new() }
            }
        },
        _ => MemberChanges { joined: Vec::new(), left: Vec::new() },
    }
}

/// Whether a sync sends the keys of every member of a room: the room is
/// encrypted and the requester joined it since their last sync, or the room
/// became encrypted since.
pub open spec fn wants_all_members(
    joined_since_last_sync: bool,
    encrypted: bool,
    newly_encrypted: bool,
) -> bool {
    joined_since_last_sync && encrypted || newly_encrypted
}

/// Whether a sync sends the keys of every member of a room.
pub fn sends_all_members(joined_since_last_sync: bool, encrypted: bool, newly_encrypted: bool) -> (r:
    bool)
    ensures
        r == wants_all_members(joined_since_last_sync, encrypted, newly_encrypted),
{
    joined_since_last_sync && encrypted || newly_encrypted
}

/// What is left to look up for a room once its state section is known.
#[derive(Debug)]
pub struct RoomWork {
    /// The other users who joined: each needs the rooms they share with
    /// the requester looked up.
    pub joined: Vec<String>,
    /// The other users who left: each may have to be forgotten at the end.
    pub left: Vec<String>,
    /// Whether the keys of every member of the room are sent.
    pub all_members: bool,
    /// Whether the room's summary is made anew.
    pub summary: bool,
}

/// Whether the keys of every member of a room are sent under a plan: only
/// where two snapshots are compared.
pub open spec fn wants_all_members_under(
    plan: StatePlan,
    joined_since_last_sync: bool,
    current: &StateMap,
    since: &StateMap,
) -> bool {
    plan == StatePlan::Incremental && wants_all_members(
        joined_since_last_sync,
        current.encrypted(),
        became_encrypted(current, since),
    )
}

/// Says what is left to look up for a room: whose shared rooms, whether
/// all members' keys are sent, and whether the summary is made anew.
pub fn plan_room_work(
    plan: StatePlan,
    joined_since_last_sync: bool,
    current: &StateMap,
    since: &StateMap,
    state_events: &Vec<PersistedEvent>,
    sender: &str,
) -> (r: RoomWork)
    ensures
        r.summary == wants_summary(plan, state_events@),
        r.all_members == wants_all_members_under(plan, joined_since_last_sync, current, since),
        r.joined@ == room_users_with(
            plan,
            current.encrypted(),
            state_events@,
            sender@,
            MemberChange::Joined,
        ),
        r.left@ == room_users_with(
            plan,
            current.encrypted(),
            state_events@,
            sender@,
            MemberChange::Left,
        ),
{
    let encrypted = current.is_encrypted();
    let changes = room_member_changes(plan, encrypted, state_events, sender);
    let all_members = match plan {
        StatePlan::Incremental => sends_all_members(
            joined_since_last_sync,
            encrypted,
            newly_encrypted(current, since),
        ),
        _ => false,
    };
    RoomWork {
        joined: changes.joined,
        left: changes.left,
        all_members,
        summary: needs_summary(plan, state_events),
    }
}

/// Notes that a user joined the encrypted room `room_id`: their keys are
/// news unless the requester shares another encrypted room with them.
pub fn track_joined(updates: &mut UserSet, user: String, shared: &Vec<SharedRoom>, room_id: &str)
    ensures
        final(updates)@ == if shares_encrypted(shared@, room_id@) {
            old(updates)@
        } else {
            old(updates)@.insert(user@)
        },
{
    if !share_encrypted_room(shared, room_id) {
        updates.insert(user);
    }
}

/// A member of a room, with the rooms that the requester shares with them.
#[derive(Debug)]
pub struct MemberRooms {
    /// The member's user id.
    pub user: String,
    /// The rooms shared with the requester; nothing where they could not be listed.
    pub shared: Option<Vec<SharedRoom>>,
}

/// Whether a member's keys are news when the requester comes into an
/// encrypted room with them: the member is not the requester, and the two
/// are not known to share another encrypted room.
pub open spec fn member_is_news(m: MemberRooms, sender: Seq<char>, room_id: Seq<char>) -> bool {
    m.user@ != sender && !(m.shared is Some && shares_encrypted(m.shared->0@, room_id))
}

/// The users among a room's members whose keys are news.
pub open spec fn news_among(members: Seq<MemberRooms>, sender: Seq<char>, room_id: Seq<char>) -> Set<
    Seq<char>,
> {
    Set::new(
        |u: Seq<char>|
            exists|i: int|
                0 <= i < members.len() && (#[trigger] members[i]).user@ == u && member_is_news(
                    members[i],
                    sender,
                    room_id,
                ),
    )
}

/// Notes every member of the encrypted room `room_id` whose keys are news
/// to the requester.
pub fn track_members(
    updates: &mut UserSet,
    members: &Vec<MemberRooms>,
    sender: &str,
    room_id: &str,
)
    ensures
        final(updates)@ == old(updates)@.union(news_among(members@, sender@, room_id@)),
{
    let me = String::from_str(sender);
    let mut i: usize = 0;
    assert(updates@ =~= old(updates)@.union(
        news_among(members@.subrange(0, 0), sender@, room_id@),
    ));
    while i < members.len()
        invariant
            0 <= i <= members@.len(),
            me@ == sender@,
            updates@ == old(updates)@.union(
                news_among(members@.subrange(0, i as int), sender@, room_id@),
            ),
        decreases members@.len() - i,
    {
        let m = &members[i];
        let shares = match &m.shared {
            Some(rooms) => share_encrypted_room(rooms, room_id),
            None => false,
        };
        let ghost before = members@.subrange(0, i as int);
        let ghost after = members@.subrange(0, i + 1);
        let ghost seen = updates@;
        if !(m.user == me) && !shares {
            updates.insert(m.user.clone());
        }
        proof {
            let grown = if member_is_news(*m, sender@, room_id@) {
                news_among(before, sender@, room_id@).insert(m.user@)
            } else {
                news_among(before, sender@, room_id@)
            };
            assert forall|u: Seq<char>| news_among(after, sender@, room_id@).contains(u)
                <==> grown.contains(u) by {
                if news_among(after, sender@, room_id@).contains(u) {
                    let k = choose|k: int|
                        0 <= k < after.len() && (#[trigger] after[k]).user@ == u
                            && member_is_news(after[k], sender@, room_id@);
                    if k < i {
                        assert(before[k] == after[k]);
                    }
                }
                if news_among(before, sender@, room_id@).contains(u) {
                    let k = choose|k: int|
                        0 <= k < before.len() && (#[trigger] before[k]).user@ == u
                            && member_is_news(before[k], sender@, room_id@);
                    assert(after[k] == before[k]);
                }
                if member_is_news(*m, sender@, room_id@) && u == m.user@ {
                    assert(after[i as int] == *m);
                }
            }
            assert(news_among(after, sender@, room_id@) =~= grown);
            assert(updates@ =~= old(updates)@.union(news_among(after, sender@, room_id@)));
        }
        i = i + 1;
    }
    assert(members@.subrange(0, i as int) =~= members@);
}

/// A user who left an encrypted room that the requester is in, with the
/// rooms that the two share now.
#[derive(Debug)]
pub struct LeftUser {
    /// The user's id.
    pub user: String,
    /// The rooms that the requester and the user share now.
    pub shared: Vec<SharedRoom>,
}

/// The users whose keys the requester may forget: those who left an
/// encrypted room and share no encrypted room with the requester any more.
pub open spec fn forgotten_among(left: Seq<LeftUser>) -> Set<Seq<char>> {
    Set::new(
        |u: Seq<char>|
            exists|i: int|
                0 <= i < left.len() && (#[trigger] left[i]).user@ == u && !shares_any_encrypted(
                    left[i].shared@,
                ),
    )
}

/// Decides, for each user who left an encrypted room during this sync,
/// whether the requester is told to forget their keys: only if no room
/// that the two still share is encrypted.
pub fn finalize_left(left: &Vec<LeftUser>) -> (r: UserSet)
    ensures
        r@ == forgotten_among(left@),
        forall|i: int|
            0 <= i < left@.len() && shares_any_encrypted((#[trigger] left@[i]).shared@) && (
            forall|j: int| 0 <= j < left@.len() && left@[j].user@ == left@[i].user@ ==> j == i)
                ==> !r@.contains(left@[i].user@),
{
    let mut out = UserSet::new();
    let mut i: usize = 0;
    assert(out@ =~= forgotten_among(left@.subrange(0, 0)));
    while i < left.len()
        invariant
            0 <= i <= left@.len(),
            out@ == forgotten_among(left@.subrange(0, i as int)),
        decreases left@.len() - i,
    {
        let l = &left[i];
        let ghost before = left@.subrange(0, i as int);
        let ghost after = left@.subrange(0, i + 1);
        let gone = !still_shares_encrypted_room(&l.shared);
        if gone {
            out.insert(l.user.clone());
        }
        proof {
            let grown = if gone {
                forgotten_among(before).insert(l.user@)
            } else {
                forgotten_among(before)
            };
            assert forall|u: Seq<char>| forgotten_among(after).contains(u) <==> grown.contains(
                u,
            ) by {
                if forgotten_among(after).contains(u) {
                    let k = choose|k: int|
                        0 <= k < after.len() && (#[trigger] after[k]).user@ == u
                            && !shares_any_encrypted(after[k].shared@);
                    if k < i {
                        assert(before[k] == after[k]);
                    }
                }
                if forgotten_among(before).contains(u) {
                    let k = choose|k: int|
                        0 <= k < before.len() && (#[trigger] before[k]).user@ == u
                            && !shares_any_encrypted(before[k].shared@);
                    assert(after[k] == before[k]);
                }
                if gone && u == l.user@ {
                    assert(after[i as int] == *l);
                }
            }
            assert(forgotten_among(after) =~= grown);
        }
        i = i + 1;
    }
    assert(left@.subrange(0, i as int) =~= left@);
    out
}

/// A user is told to be forgotten only if they left an encrypted room and
/// share no encrypted room with the requester any more; a user who still
/// shares one is never told to be forgotten.
pub proof fn lemma_left_only_without_shared_encryption(left: Seq<LeftUser>, user: Seq<char>)
    ensures
        forgotten_among(left).contains(user) ==> exists|i: int|
            0 <= i < left.len() && (#[trigger] left[i]).user@ == user && !shares_any_encrypted(
                left[i].shared@,
            ),
        (forall|i: int|
            0 <= i < left.len() && (#[trigger] left[i]).user@ == user ==> shares_any_encrypted(
                left[i].shared@,
            )) ==> !forgotten_among(left).contains(user),
        (forall|i: int| 0 <= i < left.len() ==> (#[trigger] left[i]).user@ != user)
            ==> !forgotten_among(left).contains(user),
{
}

} // verus!
