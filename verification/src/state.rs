//! A room's state at one snapshot, and what changed between two snapshots.

use vstd::prelude::*;
use vstd::string::*;
use crate::event::{encryption_type, PersistedEvent};
use crate::table::{
    distinct_keys, keyed_map, lemma_keyed_absent, lemma_keyed_present, Key, Keyed, Table,
};

verus! {

/// A state key as contracts see it: the event type and the state key.
pub type KeyView = (Seq<char>, Seq<char>);

/// A state map as contracts see it: from state key to event id.
pub type StateView = Map<KeyView, Seq<char>>;

/// What a room's state is keyed by.
#[derive(Debug)]
pub struct StateKey {
    /// The event type.
    pub event_type: String,
    /// The state key.
    pub state_key: String,
}

impl Key for StateKey {
    type Shown = KeyView;

    open spec fn shown(&self) -> KeyView {
        (self.event_type@, self.state_key@)
    }

    fn same(&self, other: &Self) -> (r: bool) {
        self.event_type == other.event_type && self.state_key == other.state_key
    }
}

/// One line of a state map: a state key, and the id of the event that
/// holds it.
pub type StateEntry = Keyed<StateKey, String>;

/// A copy of a line.
pub fn clone_entry(e: &StateEntry) -> (r: StateEntry)
    ensures
        r == *e,
{
    Keyed {
        key: StateKey { event_type: e.key.event_type.clone(), state_key: e.key.state_key.clone() },
        value: e.value.clone(),
    }
}

/// The map that a list of lines stands for.
pub open spec fn entries_map(s: Seq<StateEntry>) -> StateView {
    keyed_map(s).map_values(|id: String| id@)
}

/// Whether a line of the newer state is news to a client that has the
/// older state: the older state holds another event under the key, or none.
pub open spec fn entry_changed(e: StateEntry, since: StateView) -> bool {
    !(since.contains_key(e.key.shown()) && since[e.key.shown()] == e.value@)
}

/// The lines of the newer state that are news against the older one, in
/// the newer state's order.
pub open spec fn changed_entries(current: Seq<StateEntry>, since: StateView) -> Seq<StateEntry>
    decreases current.len(),
{
    if current.len() == 0 {
        Seq::empty()
    } else {
        let head = changed_entries(current.drop_last(), since);
        if entry_changed(current.last(), since) {
            head.push(current.last())
        } else {
            head
        }
    }
}

/// Where no line is news, nothing changed.
pub proof fn lemma_nothing_changed(current: Seq<StateEntry>, since: StateView)
    requires
        forall|j: int| 0 <= j < current.len() ==> !entry_changed(#[trigger] current[j], since),
    ensures
        changed_entries(current, since).len() == 0,
    decreases current.len(),
{
    if current.len() > 0 {
        let t = current.drop_last();
        assert forall|j: int| 0 <= j < t.len() implies !entry_changed(#[trigger] t[j], since) by {
            assert(t[j] == current[j]);
        }
        lemma_nothing_changed(t, since);
        assert(current.last() == current[current.len() - 1]);
    }
}

/// Where exactly one line is news, it alone is the change.
pub proof fn lemma_one_changed(current: Seq<StateEntry>, since: StateView, i: int)
    requires
        0 <= i < current.len(),
        entry_changed(current[i], since),
        forall|j: int|
            0 <= j < current.len() && j != i ==> !entry_changed(#[trigger] current[j], since),
    ensures
        changed_entries(current, since) == seq![current[i]],
    decreases current.len(),
{
    let t = current.drop_last();
    assert(current.last() == current[current.len() - 1]);
    if i == current.len() - 1 {
        assert forall|j: int| 0 <= j < t.len() implies !entry_changed(#[trigger] t[j], since) by {
            assert(t[j] == current[j]);
        }
        lemma_nothing_changed(t, since);
        assert(changed_entries(current, since) =~= seq![current[i]]);
    } else {
        assert(t[i] == current[i]);
        assert forall|j: int| 0 <= j < t.len() && j != i implies !entry_changed(
            #[trigger] t[j],
            since,
        ) by {
            assert(t[j] == current[j]);
        }
        lemma_one_changed(t, since, i);
    }
}

/// The state after an event took effect: a state event takes its key over,
/// any other event leaves the state as it was.
pub open spec fn state_after(before: StateView, e: PersistedEvent) -> StateView {
    match e.state_key {
        Some(k) => before.insert((e.event_type@, k@), e.event_id@),
        None => before,
    }
}

/// The complete state of a room at one snapshot: for each state key the
/// event that holds it. No key occurs twice.
#[derive(Debug)]
pub struct StateMap {
    table: Table<StateKey, String>,
}

impl View for StateMap {
    type V = StateView;

    closed spec fn view(&self) -> StateView {
        self.table@.map_values(|id: String| id@)
    }
}

impl StateMap {
    /// The lines, in the order in which their keys first came.
    pub closed spec fn lines(&self) -> Seq<StateEntry> {
        self.table.lines()
    }

    /// The state of a room in which nothing has happened yet.
    pub fn new() -> (r: Self)
        ensures
            r@ == Map::<KeyView, Seq<char>>::empty(),
            r.lines().len() == 0,
    {
        let table: Table<StateKey, String> = Table::new();
        assert(table@.map_values(|id: String| id@) =~= Map::<KeyView, Seq<char>>::empty());
        StateMap { table }
    }

    /// How many keys the state has.
    pub fn len(&self) -> (r: usize)
        ensures
            r == self.lines().len(),
            distinct_keys(self.lines()),
            self@ == entries_map(self.lines()),
    {
        self.table.len()
    }

    /// The event that holds a key, if the state has the key.
    pub fn get(&self, event_type: &str, state_key: &str) -> (r: Option<&String>)
        ensures
            match r {
                Some(id) => self@.contains_key((event_type@, state_key@)) && self@[(
                    event_type@,
                    state_key@,
                )] == id@,
                None => !self@.contains_key((event_type@, state_key@)),
            },
    {
        let key = StateKey {
            event_type: String::from_str(event_type),
            state_key: String::from_str(state_key),
        };
        self.table.get(&key)
    }

    /// Puts an event under a key: in place of the one that held the key, or
    /// as a new last line.
    pub fn insert(&mut self, event_type: String, state_key: String, event_id: String)
        ensures
            final(self)@ == old(self)@.insert((event_type@, state_key@), event_id@),
            old(self)@.contains_key((event_type@, state_key@)) ==> final(self).lines().len() == old(
                self,
            ).lines().len(),
            !old(self)@.contains_key((event_type@, state_key@)) ==> final(self).lines() == old(
                self,
            ).lines().push(Keyed { key: StateKey { event_type, state_key }, value: event_id }),
    {
        self.table.insert(StateKey { event_type, state_key }, event_id);
        assert(self@ =~= old(self)@.insert((event_type@, state_key@), event_id@));
    }

    /// Lets an appended event take effect on the state: a state event takes
    /// its key over, any other event changes nothing.
    pub fn apply(&mut self, event: &PersistedEvent)
        ensures
            final(self)@ == state_after(old(self)@, *event),
    {
        match &event.state_key {
            Some(k) => {
                self.insert(event.event_type.clone(), k.clone(), event.event_id.clone());
            },
            None => {},
        }
    }

    /// All lines of the state, in order.
    pub fn all_entries(&self) -> (r: Vec<StateEntry>)
        ensures
            r@ == self.lines(),
            distinct_keys(r@),
            self@ == entries_map(r@),
    {
        let mut out: Vec<StateEntry> = Vec::new();
        let mut i: usize = 0;
        while i < self.table.len()
            invariant
                0 <= i <= self.table.lines().len(),
                out@ == self.table.lines().subrange(0, i as int),
            decreases self.table.lines().len() - i,
        {
            match self.table.line(i) {
                Some(e) => {
                    out.push(clone_entry(e));
                },
                None => {},
            }
            assert(out@ =~= self.table.lines().subrange(0, i + 1));
            i = i + 1;
        }
        assert(out@ =~= self.table.lines());
        out
    }

    /// The lines of this state that are news to a client that has the
    /// state `since`: those whose key held another event there, or none.
    pub fn changes_since(&self, since: &StateMap) -> (r: Vec<StateEntry>)
        ensures
            r@ == changed_entries(self.lines(), since@),
    {
        let mut out: Vec<StateEntry> = Vec::new();
        let mut i: usize = 0;
        while i < self.table.len()
            invariant
                0 <= i <= self.table.lines().len(),
                out@ == changed_entries(self.table.lines().subrange(0, i as int), since@),
            decreases self.table.lines().len() - i,
        {
            let ghost next = self.table.lines().subrange(0, i + 1);
            assert(next.drop_last() =~= self.table.lines().subrange(0, i as int));
            match self.table.line(i) {
                Some(e) => {
                    assert(next.last() == *e);
                    let same = match since.table.get(&e.key) {
                        Some(id) => *id == e.value,
                        None => false,
                    };
                    if !same {
                        out.push(clone_entry(e));
                    }
                },
                None => {},
            }
            i = i + 1;
        }
        assert(self.table.lines().subrange(0, i as int) =~= self.table.lines());
        out
    }

    /// Whether the room is encrypted at this snapshot: whether its state
    /// holds an encryption event under the empty state key.
    pub open spec fn encrypted(&self) -> bool {
        self@.contains_key((encryption_type(), Seq::<char>::empty()))
    }

    /// Whether the room is encrypted at this snapshot.
    pub fn is_encrypted(&self) -> (r: bool)
        ensures
            r == self.encrypted(),
    {
        proof {
            reveal_strlit("");
        }
        assert(""@ =~= Seq::<char>::empty());
        self.get("m.room.encryption", "").is_some()
    }
}

/// A state against itself shows no change.
pub proof fn lemma_no_change_against_itself(lines: Seq<StateEntry>)
    requires
        distinct_keys(lines),
    ensures
        changed_entries(lines, entries_map(lines)).len() == 0,
{
    assert forall|j: int| 0 <= j < lines.len() implies !entry_changed(
        #[trigger] lines[j],
        entries_map(lines),
    ) by {
        lemma_keyed_present(lines, j);
    }
    lemma_nothing_changed(lines, entries_map(lines));
}

/// Appending an event and then comparing the state after with the state
/// before shows exactly the key that the event took over, with the event
/// itself, where it is a state event that the key did not hold already, and
/// nothing where it is no state event.
pub proof fn lemma_append_then_diff(
    before: Seq<StateEntry>,
    after: Seq<StateEntry>,
    e: PersistedEvent,
)
    requires
        distinct_keys(before),
        distinct_keys(after),
        entries_map(after) == state_after(entries_map(before), e),
        e.state_key is Some ==> !(entries_map(before).contains_key(
            (e.event_type@, e.state_key->0@),
        ) && entries_map(before)[(e.event_type@, e.state_key->0@)] == e.event_id@),
    ensures
        e.state_key is None ==> changed_entries(after, entries_map(before)).len() == 0,
        e.state_key is Some ==> {
            let c = changed_entries(after, entries_map(before));
            &&& c.len() == 1
            &&& c[0].key.shown() == (e.event_type@, e.state_key->0@)
            &&& c[0].value@ == e.event_id@
        },
{
    let since = entries_map(before);
    if e.state_key is None {
        lemma_no_change_against_itself(after);
    } else {
        let k = (e.event_type@, e.state_key->0@);
        assert(entries_map(after).contains_key(k));
        assert(keyed_map(after).contains_key(k));
        if forall|j: int| 0 <= j < after.len() ==> (#[trigger] after[j]).key.shown() != k {
            lemma_keyed_absent(after, k);
        }
        let i = choose|i: int| 0 <= i < after.len() && (#[trigger] after[i]).key.shown() == k;
        lemma_keyed_present(after, i);
        assert(entries_map(after)[k] == after[i].value@);
        assert(entry_changed(after[i], since));
        assert forall|j: int| 0 <= j < after.len() && j != i implies !entry_changed(
            #[trigger] after[j],
            since,
        ) by {
            lemma_keyed_present(after, j);
            assert(after[j].key.shown() != k);
            assert(entries_map(after)[after[j].key.shown()] == after[j].value@);
        }
        lemma_one_changed(after, since, i);
    }
}

} // verus!
