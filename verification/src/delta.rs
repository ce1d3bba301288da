//! Which part of a room's state one sync sends: all of it, none of it, or
//! what changed since the client's position.

use vstd::prelude::*;
use crate::error::SyncError;
use crate::event::{content_membership, read_membership, Membership};
use crate::state::{changed_entries, StateEntry, StateMap, StateView};

verus! {

/// The name of a state snapshot. Two names are equal exactly when they name
/// the same snapshot; what a snapshot holds is only known by fetching it.
pub type SnapshotId = u64;

/// How the state section of a joined room is made.
#[derive(Clone, Copy, Debug, PartialEq, Eq, Structural)]
pub enum StatePlan {
    /// No snapshot is on record for the client's position: send the whole state.
    Initial,
    /// Nothing new in the timeline and the same snapshot as then: send no state.
    Unchanged,
    /// Compare the snapshot of then with the one of now.
    Incremental,
}

/// The plan for a room, from the snapshot on record for the client's
/// position, the room's current snapshot and the length of the timeline.
pub open spec fn state_plan_of(
    since_snapshot: Option<SnapshotId>,
    current_snapshot: SnapshotId,
    timeline_len: nat,
) -> StatePlan {
    match since_snapshot {
        None => StatePlan::Initial,
        Some(s) => if timeline_len == 0 && s == current_snapshot {
            StatePlan::Unchanged
        } else {
            StatePlan::Incremental
        },
    }
}

/// Decides how the state section of a joined room is made. A room without a
/// current snapshot cannot be synced at all.
pub fn plan_state(
    since_snapshot: Option<SnapshotId>,
    current_snapshot: Option<SnapshotId>,
    timeline_len: usize,
) -> (r: Result<StatePlan, SyncError>)
    ensures
        match current_snapshot {
            None => r == Err::<StatePlan, SyncError>(SyncError::MissingSnapshot),
            Some(c) => r == Ok::<StatePlan, SyncError>(
                state_plan_of(since_snapshot, c, timeline_len as nat),
            ),
        },
{
    match current_snapshot {
        None => Err(SyncError::MissingSnapshot),
        Some(current) => match since_snapshot {
            None => Ok(StatePlan::Initial),
            Some(since) => if timeline_len == 0 && since == current {
                Ok(StatePlan::Unchanged)
            } else {
                Ok(StatePlan::Incremental)
            },
        },
    }
}

/// Whether the requester joined the room after the older snapshot: whether
/// their membership there was anything but joined, or unknown.
pub open spec fn joined_after(since_membership: Option<Membership>) -> bool {
    since_membership != Some(Membership::Join)
}

/// Whether the requester joined the room after the older snapshot, from
/// what their membership event of then says, if there was one that reads.
pub fn joined_since(since_membership: Option<Membership>) -> (r: bool)
    ensures
        r == joined_after(since_membership),
{
    match since_membership {
        Some(Membership::Join) => false,
        _ => true,
    }
}

/// The membership that the requester's membership event at the older
/// snapshot states: nothing where there was no such event, or where its
/// content does not read.
pub open spec fn membership_of(content: Option<&str>) -> Option<Membership> {
    match content {
        None => None,
        Some(c) => content_membership(c@),
    }
}

/// Reads the requester's membership at the older snapshot from the content
/// of their membership event there, if there was one.
pub fn since_membership(content: Option<&str>) -> (r: Option<Membership>)
    ensures
        r == membership_of(content),
{
    match content {
        None => None,
        Some(c) => read_membership(c),
    }
}

/// Whether the requester counts as newly joined under a plan.
pub open spec fn newly_joined(plan: StatePlan, since_membership: Option<Membership>) -> bool {
    match plan {
        StatePlan::Initial => true,
        StatePlan::Unchanged => false,
        StatePlan::Incremental => joined_after(since_membership),
    }
}

/// The state entries that a plan sends: the whole current state on an
/// initial sync and for a requester who joined since, nothing where nothing
/// changed, and otherwise the entries that are news.
pub open spec fn delta_entries(
    plan: StatePlan,
    since_membership: Option<Membership>,
    current: Seq<StateEntry>,
    since: StateView,
) -> Seq<StateEntry> {
    match plan {
        StatePlan::Initial => current,
        StatePlan::Unchanged => Seq::empty(),
        StatePlan::Incremental => if joined_after(since_membership) {
            current
        } else {
            changed_entries(current, since)
        },
    }
}

/// An initial sync sends the complete current state, whatever the timeline
/// holds; and so does any sync to a requester who joined since, however
/// little changed.
pub proof fn lemma_newcomer_gets_full_state(
    since_snapshot: Option<SnapshotId>,
    current_snapshot: SnapshotId,
    timeline_len: nat,
    since_membership: Option<Membership>,
    current: Seq<StateEntry>,
    since: StateView,
)
    ensures
        since_snapshot is None ==> delta_entries(
            state_plan_of(since_snapshot, current_snapshot, timeline_len),
            since_membership,
            current,
            since,
        ) == current,
        newly_joined(
            state_plan_of(since_snapshot, current_snapshot, timeline_len),
            since_membership,
        ) ==> delta_entries(
            state_plan_of(since_snapshot, current_snapshot, timeline_len),
            since_membership,
            current,
            since,
        ) == current,
        state_plan_of(since_snapshot, current_snapshot, timeline_len) == StatePlan::Incremental
            && joined_after(since_membership) ==> delta_entries(
            StatePlan::Incremental,
            since_membership,
            current,
            since,
        ) == current,
{
}

/// The state section of a joined room, before its events are fetched.
#[derive(Debug)]
pub struct StateDelta {
    /// The entries whose events the state section holds, in the current
    /// state's order.
    pub entries: Vec<StateEntry>,
    /// Whether the requester joined the room since their last sync. An
    /// initial sync counts as such.
    pub joined_since_last_sync: bool,
}

/// Makes the state section of a joined room. `since` is read only under the
/// incremental plan, and there only for a requester who was joined all along.
pub fn state_delta(
    plan: StatePlan,
    since_membership: Option<Membership>,
    current: &StateMap,
    since: &StateMap,
) -> (r: StateDelta)
    ensures
        r.entries@ == delta_entries(plan, since_membership, current.lines(), since@),
        r.joined_since_last_sync == newly_joined(plan, since_membership),
        r.joined_since_last_sync ==> r.entries@ == current.lines(),
{
    match plan {
        StatePlan::Initial => StateDelta {
            entries: current.all_entries(),
            joined_since_last_sync: true,
        },
        StatePlan::Unchanged => StateDelta { entries: Vec::new(), joined_since_last_sync: false },
        StatePlan::Incremental => {
            if joined_since(since_membership) {
                StateDelta { entries: current.all_entries(), joined_since_last_sync: true }
            } else {
                StateDelta {
                    entries: current.changes_since(since),
                    joined_since_last_sync: false,
                }
            }
        },
    }
}

/// Whether a room became encrypted between two snapshots.
pub open spec fn became_encrypted(current: &StateMap, since: &StateMap) -> bool {
    current.encrypted() && !since.encrypted()
}

/// Whether a room is encrypted now and was not at the older snapshot.
pub fn newly_encrypted(current: &StateMap, since: &StateMap) -> (r: bool)
    ensures
        r == became_encrypted(current, since),
{
    current.is_encrypted() && !since.is_encrypted()
}

} // verus!
