//! The table of per-room locks. Every room has two: one that writers hold
//! while they append, and one that readers take and give back at once, to
//! wait until no append to the room is under way.

use vstd::prelude::*;
use vstd::string::*;
use crate::table::Table;

verus! {

/// A table of lock handles by room id. A room gets its handle when it is
/// first asked for, and keeps it for good.
#[derive(Debug)]
pub struct LockTable<H> {
    handles: Table<String, H>,
}

impl<H> View for LockTable<H> {
    type V = Map<Seq<char>, H>;

    closed spec fn view(&self) -> Map<Seq<char>, H> {
        self.handles@
    }
}

/// The table after a room's handle was asked for: as before where the
/// room had one, with the fresh handle for the room where it had none.
pub open spec fn with_room<H>(table: Map<Seq<char>, H>, room_id: Seq<char>, fresh: H) -> Map<
    Seq<char>,
    H,
> {
    if table.contains_key(room_id) {
        table
    } else {
        table.insert(room_id, fresh)
    }
}

/// Whether a table holds all that another held, unchanged.
pub open spec fn keeps_all<H>(before: Map<Seq<char>, H>, after: Map<Seq<char>, H>) -> bool {
    forall|room: Seq<char>| #[trigger]
        before.contains_key(room) ==> after.contains_key(room) && after[room] == before[room]
}

impl<H> LockTable<H> {
    /// The table before any room was asked for.
    pub fn new() -> (r: Self)
        ensures
            r@ == Map::<Seq<char>, H>::empty(),
    {
        LockTable { handles: Table::new() }
    }

    /// The handle of a room, if the room was asked for before.
    pub fn get(&self, room_id: &str) -> (r: Option<&H>)
        ensures
            match r {
                Some(h) => self@.contains_key(room_id@) && self@[room_id@] == *h,
                None => !self@.contains_key(room_id@),
            },
    {
        let key = String::from_str(room_id);
        self.handles.get(&key)
    }

    /// Makes sure that a room has a handle: `fresh` becomes the handle of a
    /// room that had none. Says whether it did.
    pub fn ensure(&mut self, room_id: &str, fresh: H) -> (created: bool)
        ensures
            created == !old(self)@.contains_key(room_id@),
            final(self)@ == with_room(old(self)@, room_id@, fresh),
            final(self)@.contains_key(room_id@),
            keeps_all(old(self)@, final(self)@),
    {
        let key = String::from_str(room_id);
        if self.handles.contains_key(&key) {
            false
        } else {
            self.handles.insert(key, fresh);
            true
        }
    }
}

/// The locks of all rooms. The two kinds are kept apart: writers have to
/// be held off each other for longer than a reader should ever wait.
#[derive(Debug)]
pub struct RoomLockRegistry<S, D> {
    /// The locks that serialize the writers of a room.
    pub state_mutation: LockTable<S>,
    /// The locks that a reader takes and gives back to wait out an append.
    pub insert_drain: LockTable<D>,
}

impl<S, D> RoomLockRegistry<S, D> {
    /// The registry before any room was asked for.
    pub fn new() -> (r: Self)
        ensures
            r.state_mutation@ == Map::<Seq<char>, S>::empty(),
            r.insert_drain@ == Map::<Seq<char>, D>::empty(),
    {
        RoomLockRegistry { state_mutation: LockTable::new(), insert_drain: LockTable::new() }
    }

    /// The lock that a writer holds while it appends to a room. `fresh` is
    /// used only where the room has no such lock yet. The other kind of
    /// lock is not touched.
    pub fn lock_for_state_mutation(&mut self, room_id: &str, fresh: S) -> (r: &S)
        ensures
            final(self).state_mutation@ == with_room(old(self).state_mutation@, room_id@, fresh),
            final(self).insert_drain@ == old(self).insert_drain@,
            *r == final(self).state_mutation@[room_id@],
            old(self).state_mutation@.contains_key(room_id@) ==> *r == old(
                self,
            ).state_mutation@[room_id@],
    {
        self.state_mutation.ensure(room_id, fresh);
        self.state_mutation.get(room_id).unwrap()
    }

    /// The lock that a reader takes and gives back at once before it reads
    /// a room. `fresh` is used only where the room has no such lock yet.
    /// The other kind of lock is not touched.
    pub fn lock_for_read_barrier(&mut self, room_id: &str, fresh: D) -> (r: &D)
        ensures
            final(self).insert_drain@ == with_room(old(self).insert_drain@, room_id@, fresh),
            final(self).state_mutation@ == old(self).state_mutation@,
            *r == final(self).insert_drain@[room_id@],
            old(self).insert_drain@.contains_key(room_id@) ==> *r == old(
                self,
            ).insert_drain@[room_id@],
    {
        self.insert_drain.ensure(room_id, fresh);
        self.insert_drain.get(room_id).unwrap()
    }
}

/// A room's lock is made once: whoever asks for it later gets the same one,
/// whatever fresh handle they bring, and no room ever loses its lock.
pub proof fn lemma_lock_is_made_once<H>(
    table: Map<Seq<char>, H>,
    room_id: Seq<char>,
    first: H,
    second: H,
    other_room: Seq<char>,
    other: H,
)
    ensures
        ({
            let once = with_room(table, room_id, first);
            let later = with_room(with_room(once, other_room, other), room_id, second);
            &&& later[room_id] == once[room_id]
            &&& keeps_all(table, later)
        }),
{
}

} // verus!
