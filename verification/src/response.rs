//! The whole response of one sync, and what becomes of it: sent at once,
//! or held back for a bounded wait because it says nothing.

use vstd::prelude::*;
use crate::presence::{PresenceUpdate, PresenceUpdates};
use crate::rooms::{InvitedRoom, JoinedRoom, LeftRoom};
use crate::table::{Keyed, Table};
use crate::strings::{str_set, str_views};
use crate::table::{distinct_keys, keyed_map};
use crate::token::{decimal_digits, format_token, Position};
use crate::users::UserSet;

verus! {

/// The longest that a sync waits for news, in seconds.
pub const LONG_POLL_CAP_SECS: u64 = 30;

/// A span of time: whole seconds and the nanoseconds beyond them.
#[derive(Clone, Copy, Debug, PartialEq, Eq, Structural)]
pub struct Wait {
    /// Whole seconds.
    pub secs: u64,
    /// Nanoseconds beyond the whole seconds. A full second or more here
    /// counts like whole seconds.
    pub nanos: u32,
}

impl Wait {
    /// The span in nanoseconds.
    pub open spec fn total_nanos(&self) -> int {
        self.secs * 1_000_000_000 + self.nanos
    }
}

/// The longest that a sync waits for news, in nanoseconds.
pub open spec fn cap_nanos() -> int {
    LONG_POLL_CAP_SECS * 1_000_000_000
}

/// The wait that a sync grants: the one asked for where that is shorter
/// than thirty seconds, thirty seconds where it is not, and none where none
/// was asked for.
pub open spec fn granted_wait(timeout: Option<Wait>) -> Wait {
    match timeout {
        None => Wait { secs: 0, nanos: 0 },
        Some(w) => if w.total_nanos() >= cap_nanos() {
            Wait { secs: LONG_POLL_CAP_SECS, nanos: 0 }
        } else {
            w
        },
    }
}

/// How long a sync that has nothing to say waits for news: never longer
/// than thirty seconds, however the wait asked for is written.
pub fn long_poll_wait(timeout: Option<Wait>) -> (r: Wait)
    ensures
        r == granted_wait(timeout),
        r.total_nanos() <= cap_nanos(),
{
    match timeout {
        None => Wait { secs: 0, nanos: 0 },
        Some(w) => {
            let whole: u64 = (w.nanos / 1_000_000_000) as u64;
            assert(whole * 1_000_000_000 <= w.nanos < (whole + 1) * 1_000_000_000) by {
                assert(w.nanos == 1_000_000_000 * (w.nanos as int / 1_000_000_000) + w.nanos as int
                    % 1_000_000_000);
            }
            if w.secs >= LONG_POLL_CAP_SECS || w.secs + whole >= LONG_POLL_CAP_SECS {
                Wait { secs: LONG_POLL_CAP_SECS, nanos: 0 }
            } else {
                w
            }
        },
    }
}

/// The granted wait is never longer than thirty seconds, never longer than
/// the wait asked for, and is the wait asked for where that is shorter
/// than the cap.
pub proof fn lemma_wait_is_capped(w: Wait)
    ensures
        granted_wait(Some(w)).total_nanos() <= cap_nanos(),
        granted_wait(Some(w)).total_nanos() <= w.total_nanos(),
        w.total_nanos() < cap_nanos() ==> granted_wait(Some(w)) == w,
        w.total_nanos() >= cap_nanos() ==> granted_wait(Some(w)).total_nanos() == cap_nanos(),
{
}

/// The rooms of a response.
#[derive(Debug)]
pub struct Rooms {
    /// The rooms that the requester is joined to, by room id.
    pub join: Table<String, JoinedRoom>,
    /// The rooms that the requester left, by room id.
    pub leave: Table<String, LeftRoom>,
    /// The rooms that the requester is invited to, by room id.
    pub invite: Table<String, InvitedRoom>,
}

impl Rooms {
    /// Whether no room is named.
    pub open spec fn is_empty_spec(&self) -> bool {
        self.join.lines().len() == 0 && self.leave.lines().len() == 0 && self.invite.lines().len()
            == 0
    }

    /// No room.
    pub fn new() -> (r: Rooms)
        ensures
            r.is_empty_spec(),
    {
        Rooms { join: Table::new(), leave: Table::new(), invite: Table::new() }
    }

    /// Whether no room is named.
    pub fn is_empty(&self) -> (r: bool)
        ensures
            r == self.is_empty_spec(),
    {
        self.leave.is_empty() && self.join.is_empty() && self.invite.is_empty()
    }
}

/// Whose device lists changed for the requester.
#[derive(Debug)]
pub struct DeviceLists {
    /// The users whose keys should be fetched anew.
    pub changed: Vec<String>,
    /// The users whose keys may be forgotten.
    pub left: Vec<String>,
}

impl DeviceLists {
    /// Whether no user is named.
    pub open spec fn is_empty_spec(&self) -> bool {
        self.changed@.len() == 0 && self.left@.len() == 0
    }

    /// Whether no user is named.
    pub fn is_empty(&self) -> (r: bool)
        ensures
            r == self.is_empty_spec(),
    {
        self.changed.len() == 0 && self.left.len() == 0
    }
}

/// How many one-time keys of one algorithm a device has left.
#[derive(Debug)]
pub struct KeyCount {
    /// The algorithm.
    pub algorithm: String,
    /// How many keys are left.
    pub count: u64,
}

/// The response of one sync.
#[derive(Debug)]
pub struct SyncResponse {
    /// The token to hand in with the next sync.
    pub next_batch: String,
    /// What happened in rooms.
    pub rooms: Rooms,
    /// Presence, one update per user.
    pub presence: Vec<Keyed<String, PresenceUpdate>>,
    /// The requester's private data that changed, as JSON texts.
    pub account_data: Vec<String>,
    /// Whose device lists changed.
    pub device_lists: DeviceLists,
    /// The device's one-time keys that are left.
    pub device_one_time_keys_count: Vec<KeyCount>,
    /// The messages sent to this device, as JSON texts.
    pub to_device: Vec<String>,
}

impl SyncResponse {
    /// Puts a response together. Its token is the position at which the
    /// sync began; its lists name each user once.
    pub fn assemble(
        next_batch: Position,
        rooms: Rooms,
        presence: PresenceUpdates,
        account_data: Vec<String>,
        changed: UserSet,
        left: UserSet,
        device_one_time_keys_count: Vec<KeyCount>,
        to_device: Vec<String>,
    ) -> (r: SyncResponse)
        ensures
            r.next_batch@ == decimal_digits(next_batch as nat),
            r.rooms == rooms,
            keyed_map(r.presence@) == presence@,
            distinct_keys(r.presence@),
            r.presence@ == presence.lines(),
            r.account_data == account_data,
            str_set(r.device_lists.changed@) == changed@,
            str_views(r.device_lists.changed@).no_duplicates(),
            str_set(r.device_lists.left@) == left@,
            str_views(r.device_lists.left@).no_duplicates(),
            r.device_one_time_keys_count == device_one_time_keys_count,
            r.to_device == to_device,
    {
        SyncResponse {
            next_batch: format_token(next_batch),
            rooms,
            presence: presence.into_vec(),
            account_data,
            device_lists: DeviceLists { changed: changed.into_vec(), left: left.into_vec() },
            device_one_time_keys_count,
            to_device,
        }
    }

    /// Whether the response brings no news: no room, no presence, no
    /// account data, no device list change and no message to the device.
    pub open spec fn is_quiet(&self) -> bool {
        &&& self.rooms.is_empty_spec()
        &&& self.presence@.len() == 0
        &&& self.account_data@.len() == 0
        &&& self.device_lists.is_empty_spec()
        &&& self.to_device@.len() == 0
    }

    /// Whether the response brings no news. The token and the key counts
    /// do not count as news.
    pub fn is_empty(&self) -> (r: bool)
        ensures
            r == self.is_quiet(),
    {
        self.rooms.is_empty() && self.presence.len() == 0 && self.account_data.len() == 0
            && self.device_lists.is_empty() && self.to_device.len() == 0
    }
}

/// What becomes of an assembled response.
#[derive(Clone, Copy, Debug, PartialEq, Eq, Structural)]
pub enum Delivery {
    /// Send it now. `cache` says whether identical requests may be answered
    /// with it too.
    Now { cache: bool },
    /// Wait for news, for `wait` at most, then send it as it is. Such a
    /// response is never kept for other requests.
    AfterWait { wait: Wait },
}

/// What becomes of a response: one that brings no news, to a request that
/// did not ask for the full state, waits; any other is sent at once, and
/// may be kept for identical requests if the position moved.
pub open spec fn delivery_of(
    quiet: bool,
    full_state: bool,
    timeout: Option<Wait>,
    since: Position,
    next_batch: Position,
) -> Delivery {
    if !full_state && quiet {
        Delivery::AfterWait { wait: granted_wait(timeout) }
    } else {
        Delivery::Now { cache: since != next_batch }
    }
}

/// Decides what becomes of an assembled response.
pub fn deliver(
    response: &SyncResponse,
    full_state: bool,
    timeout: Option<Wait>,
    since: Position,
    next_batch: Position,
) -> (r: Delivery)
    ensures
        r == delivery_of(response.is_quiet(), full_state, timeout, since, next_batch),
{
    if !full_state && response.is_empty() {
        Delivery::AfterWait { wait: long_poll_wait(timeout) }
    } else {
        Delivery::Now { cache: since != next_batch }
    }
}

impl Delivery {
    /// Whether the response may answer identical requests too.
    pub open spec fn cacheable(&self) -> bool {
        match self {
            Delivery::Now { cache } => *cache,
            Delivery::AfterWait { .. } => false,
        }
    }

    /// Whether the response may answer identical requests too: only one
    /// that was sent at once and moved the position.
    pub fn caching_allowed(&self) -> (r: bool)
        ensures
            r == self.cacheable(),
    {
        match self {
            Delivery::Now { cache } => *cache,
            Delivery::AfterWait { .. } => false,
        }
    }
}

/// A response that waited is never kept, and one that did not move the
/// position is never kept.
pub proof fn lemma_only_progress_is_cached(
    quiet: bool,
    full_state: bool,
    timeout: Option<Wait>,
    since: Position,
    next_batch: Position,
)
    ensures
        delivery_of(quiet, full_state, timeout, since, next_batch).cacheable() ==> since
            != next_batch && (full_state || !quiet),
        delivery_of(quiet, full_state, timeout, since, next_batch) is AfterWait ==> !delivery_of(
            quiet,
            full_state,
            timeout,
            since,
            next_batch,
        ).cacheable(),
{
}

} // verus!
