//! Presence: one update per user for a whole response, merged from what
//! each room brings.

use vstd::prelude::*;
use vstd::string::*;
use crate::strings::clone_opt_string;
use crate::table::{distinct_keys, keyed_map, Keyed, Table};

verus! {

/// What is known of a user's presence.
#[derive(Debug)]
pub struct PresenceUpdate {
    /// The presence state, such as `online`.
    pub presence: String,
    /// The user's status message.
    pub status_msg: Option<String>,
    /// How long ago the user was last active, in milliseconds.
    pub last_active_ago: Option<u64>,
    /// The user's display name.
    pub displayname: Option<String>,
    /// The user's avatar.
    pub avatar_url: Option<String>,
    /// Whether the user is active right now.
    pub currently_active: Option<bool>,
}

/// The later of two optional values, where the later one is there; the
/// earlier one where it is not.
pub open spec fn later_or<T>(earlier: Option<T>, later: Option<T>) -> Option<T> {
    match later {
        Some(v) => Some(v),
        None => earlier,
    }
}

/// Two updates for one user, merged: the later one's state, and of every
/// other field the later one's where it carries the field.
pub open spec fn merged(earlier: PresenceUpdate, later: PresenceUpdate) -> PresenceUpdate {
    PresenceUpdate {
        presence: later.presence,
        status_msg: later_or(earlier.status_msg, later.status_msg),
        last_active_ago: later_or(earlier.last_active_ago, later.last_active_ago),
        displayname: later_or(earlier.displayname, later.displayname),
        avatar_url: later_or(earlier.avatar_url, later.avatar_url),
        currently_active: later_or(earlier.currently_active, later.currently_active),
    }
}

/// Merging never blanks a field: what the earlier update carried is still
/// carried, and what the later one carries is carried as the later one has it.
pub proof fn lemma_merge_keeps_fields(earlier: PresenceUpdate, later: PresenceUpdate)
    ensures
        earlier.status_msg is Some ==> merged(earlier, later).status_msg is Some,
        earlier.last_active_ago is Some ==> merged(earlier, later).last_active_ago is Some,
        earlier.displayname is Some ==> merged(earlier, later).displayname is Some,
        earlier.avatar_url is Some ==> merged(earlier, later).avatar_url is Some,
        earlier.currently_active is Some ==> merged(earlier, later).currently_active is Some,
        later.status_msg is Some ==> merged(earlier, later).status_msg == later.status_msg,
        later.last_active_ago is Some ==> merged(earlier, later).last_active_ago
            == later.last_active_ago,
        later.displayname is Some ==> merged(earlier, later).displayname == later.displayname,
        later.avatar_url is Some ==> merged(earlier, later).avatar_url == later.avatar_url,
        later.currently_active is Some ==> merged(earlier, later).currently_active
            == later.currently_active,
        merged(earlier, later).presence == later.presence,
{
}

/// Merges a later update into an earlier one of the same user.
pub fn merge_update(earlier: &PresenceUpdate, later: PresenceUpdate) -> (r: PresenceUpdate)
    ensures
        r == merged(*earlier, later),
{
    PresenceUpdate {
        presence: later.presence,
        status_msg: match later.status_msg {
            Some(s) => Some(s),
            None => clone_opt_string(&earlier.status_msg),
        },
        last_active_ago: match later.last_active_ago {
            Some(v) => Some(v),
            None => earlier.last_active_ago,
        },
        displayname: match later.displayname {
            Some(s) => Some(s),
            None => clone_opt_string(&earlier.displayname),
        },
        avatar_url: match later.avatar_url {
            Some(s) => Some(s),
            None => clone_opt_string(&earlier.avatar_url),
        },
        currently_active: match later.currently_active {
            Some(v) => Some(v),
            None => earlier.currently_active,
        },
    }
}

/// The presence updates of one response: at most one per user.
#[derive(Debug)]
pub struct PresenceUpdates {
    table: Table<String, PresenceUpdate>,
}

impl View for PresenceUpdates {
    type V = Map<Seq<char>, PresenceUpdate>;

    closed spec fn view(&self) -> Map<Seq<char>, PresenceUpdate> {
        self.table@
    }
}

impl PresenceUpdates {
    /// The updates, in the order in which their users first came.
    pub closed spec fn lines(&self) -> Seq<Keyed<String, PresenceUpdate>> {
        self.table.lines()
    }

    /// No update yet.
    pub fn new() -> (r: Self)
        ensures
            r@ == Map::<Seq<char>, PresenceUpdate>::empty(),
            r.lines().len() == 0,
    {
        PresenceUpdates { table: Table::new() }
    }

    /// How many users have an update.
    pub fn len(&self) -> (r: usize)
        ensures
            r == self.lines().len(),
    {
        self.table.len()
    }

    /// Whether no user has an update.
    pub fn is_empty(&self) -> (r: bool)
        ensures
            r == (self.lines().len() == 0),
            r == (self@ == Map::<Seq<char>, PresenceUpdate>::empty()),
    {
        self.table.is_empty()
    }

    /// The update held for a user, if there is one.
    pub fn get(&self, user: &str) -> (r: Option<&PresenceUpdate>)
        ensures
            match r {
                Some(u) => self@.contains_key(user@) && self@[user@] == *u,
                None => !self@.contains_key(user@),
            },
    {
        let key = String::from_str(user);
        self.table.get(&key)
    }

    /// Takes in an update for a user: as it is where the user had none,
    /// merged into the one held where the user had one.
    pub fn merge(&mut self, user: String, update: PresenceUpdate)
        ensures
            final(self)@ == old(self)@.insert(
                user@,
                if old(self)@.contains_key(user@) {
                    merged(old(self)@[user@], update)
                } else {
                    update
                },
            ),
    {
        let held = match self.table.get(&user) {
            Some(earlier) => merge_update(earlier, update),
            None => update,
        };
        self.table.insert(user, held);
    }

    /// The updates as a list, one line per user.
    pub fn into_vec(self) -> (r: Vec<Keyed<String, PresenceUpdate>>)
        ensures
            r@ == self.lines(),
            keyed_map(r@) == self@,
            distinct_keys(r@),
    {
        self.table.into_vec()
    }
}

} // verus!
