//! Events as the sync engine reads them, and what a membership event says.

use vstd::prelude::*;
use vstd::string::*;
use crate::strings::clone_opt_string;
use crate::token::Position;

verus! {

/// An event of a room's log. It never changes once it has its position.
#[derive(Debug)]
pub struct PersistedEvent {
    /// The event's identifier.
    pub event_id: String,
    /// Where the event stands in the server-wide log.
    pub position: Position,
    /// The event's type, such as `m.room.member`.
    pub event_type: String,
    /// The state key, for the events that are part of a room's state.
    pub state_key: Option<String>,
    /// The content, as JSON text.
    pub content: String,
    /// Who sent the event.
    pub sender: String,
    /// The event that this one redacts, if it redacts one.
    pub redacts: Option<String>,
}

impl Clone for PersistedEvent {
    fn clone(&self) -> (r: Self)
        ensures
            r == *self,
    {
        PersistedEvent {
            event_id: self.event_id.clone(),
            position: self.position,
            event_type: self.event_type.clone(),
            state_key: clone_opt_string(&self.state_key),
            content: self.content.clone(),
            sender: self.sender.clone(),
            redacts: clone_opt_string(&self.redacts),
        }
    }
}

/// The type of the events that say who is in a room.
pub open spec fn member_type() -> Seq<char> {
    "m.room.member"@
}

/// The type of the event that turns encryption on in a room.
pub open spec fn encryption_type() -> Seq<char> {
    "m.room.encryption"@
}

impl PersistedEvent {
    /// Whether the event is part of the room's state.
    pub open spec fn is_state(&self) -> bool {
        self.state_key is Some
    }

    /// Whether the event is a membership event.
    pub open spec fn is_member(&self) -> bool {
        self.event_type@ == member_type()
    }

    /// Whether the event is part of the room's state: it has a state key.
    pub fn has_state_key(&self) -> (r: bool)
        ensures
            r == self.is_state(),
    {
        self.state_key.is_some()
    }

    /// Whether the event is a membership event.
    pub fn is_member_event(&self) -> (r: bool)
        ensures
            r == self.is_member(),
    {
        let member = String::from_str("m.room.member");
        self.event_type == member
    }
}

/// What a membership event says of its user.
#[derive(Clone, Copy, Debug, PartialEq, Eq, Structural)]
pub enum Membership {
    /// The user is banned.
    Ban,
    /// The user has been invited.
    Invite,
    /// The user has joined.
    Join,
    /// The user has asked to join.
    Knock,
    /// The user has left.
    Leave,
    /// A membership that this engine gives no meaning to.
    Other,
}

/// The membership that a membership event's content states, or nothing where
/// the text does not read: where it is no JSON object with a membership, or
/// names a user who authorised the join that is no user id.
pub uninterp spec fn content_membership(content: Seq<char>) -> Option<Membership>;

/// Whether a string is a user id.
pub uninterp spec fn is_user_id(id: Seq<char>) -> bool;

/// Reads a membership event's content with `serde_json::from_str`, as ruma's
/// `RedactedRoomMemberEventContent`, and hands out its `membership` field.
/// That type holds the membership and the user who authorised a join; what
/// else a content holds is not read. Trusted: that the outcome depends on
/// the text alone.
#[verifier::external_body]
pub(crate) fn read_membership(content: &str) -> (r: Option<Membership>)
    ensures
        r == content_membership(content@),
{
    match serde_json::from_str::<ruma::events::room::member::RedactedRoomMemberEventContent>(
        content,
    ) {
        Ok(c) => Some(match c.membership {
            ruma::events::room::member::MembershipState::Ban => Membership::Ban,
            ruma::events::room::member::MembershipState::Invite => Membership::Invite,
            ruma::events::room::member::MembershipState::Join => Membership::Join,
            ruma::events::room::member::MembershipState::Knock => Membership::Knock,
            ruma::events::room::member::MembershipState::Leave => Membership::Leave,
            _ => Membership::Other,
        }),
        Err(_) => None,
    }
}

/// Asks ruma's `UserId::parse` whether a string is a user id. Trusted: that
/// the answer depends on the string alone.
#[verifier::external_body]
pub(crate) fn check_user_id(id: &str) -> (r: bool)
    ensures
        r == is_user_id(id@),
{
    ruma::UserId::parse(id).is_ok()
}

/// What a membership event says, read once so that the decisions can work on
/// plain values.
#[derive(Debug)]
pub struct MemberFacts {
    /// The event's state key: the user that the event is about.
    pub user: String,
    /// Whether that state key is a user id.
    pub user_valid: bool,
    /// The membership that the content states, if the content reads.
    pub membership: Option<Membership>,
}

/// The facts of a membership event that has a state key; nothing for any
/// other event.
pub open spec fn member_facts_of(e: PersistedEvent) -> Option<MemberFacts> {
    if e.is_member() && e.state_key is Some {
        Some(
            MemberFacts {
                user: e.state_key->0,
                user_valid: is_user_id(e.state_key->0@),
                membership: content_membership(e.content@),
            },
        )
    } else {
        None
    }
}

/// Reads what a membership event says. Events of other types, and membership
/// events without a state key, say nothing.
pub fn member_facts(e: &PersistedEvent) -> (r: Option<MemberFacts>)
    ensures
        r == member_facts_of(*e),
{
    if !e.is_member_event() {
        return None;
    }
    match &e.state_key {
        None => None,
        Some(key) => {
            let user_valid = check_user_id(key.as_str());
            let membership = read_membership(e.content.as_str());
            Some(MemberFacts { user: key.clone(), user_valid, membership })
        },
    }
}

} // verus!
