//! A set of user ids, kept in the order in which the ids first came.

use vstd::prelude::*;
use vstd::string::*;
use crate::strings::{
    lemma_str_set_empty, lemma_str_set_push, list_contains, str_set, str_views,
};

verus! {

/// A set of user ids. No id is held twice.
#[derive(Debug)]
pub struct UserSet {
    ids: Vec<String>,
}

impl View for UserSet {
    type V = Set<Seq<char>>;

    closed spec fn view(&self) -> Set<Seq<char>> {
        str_set(self.ids@)
    }
}

impl UserSet {
    #[verifier::type_invariant]
    spec fn well_formed(&self) -> bool {
        str_views(self.ids@).no_duplicates()
    }

    /// The ids in the order in which they first came.
    pub closed spec fn order(&self) -> Seq<String> {
        self.ids@
    }

    /// The set without any id.
    pub fn new() -> (r: Self)
        ensures
            r@ == Set::<Seq<char>>::empty(),
            r.order().len() == 0,
    {
        proof {
            lemma_str_set_empty();
        }
        UserSet { ids: Vec::new() }
    }

    /// How many ids the set holds.
    pub fn len(&self) -> (r: usize)
        ensures
            r == self.order().len(),
            str_set(self.order()) == self@,
            str_views(self.order()).no_duplicates(),
    {
        proof {
            use_type_invariant(self);
        }
        self.ids.len()
    }

    /// Whether the set holds no id.
    pub fn is_empty(&self) -> (r: bool)
        ensures
            r == (self.order().len() == 0),
            r == (self@ == Set::<Seq<char>>::empty()),
    {
        proof {
            if self.ids@.len() == 0 {
                assert(self.ids@ =~= Seq::<String>::empty());
                lemma_str_set_empty();
            } else {
                assert(str_set(self.ids@).contains(self.ids@[0]@));
            }
        }
        self.ids.len() == 0
    }

    /// Whether the set holds an id.
    pub fn contains(&self, id: &str) -> (r: bool)
        ensures
            r == self@.contains(id@),
    {
        let key = String::from_str(id);
        list_contains(&self.ids, &key)
    }

    /// Adds an id, unless the set holds it already. Says whether it was added.
    pub fn insert(&mut self, id: String) -> (added: bool)
        ensures
            final(self)@ == old(self)@.insert(id@),
            added == !old(self)@.contains(id@),
            added ==> final(self).order() == old(self).order().push(id),
            !added ==> final(self).order() == old(self).order(),
    {
        proof {
            use_type_invariant(&*self);
        }
        if list_contains(&self.ids, &id) {
            assert(self@.insert(id@) =~= self@);
            false
        } else {
            let ghost before = self.ids@;
            proof {
                lemma_str_set_push(before, id);
                let after = before.push(id);
                assert forall|i: int, j: int|
                    0 <= i < after.len() && 0 <= j < after.len() && i != j implies str_views(
                    after,
                )[i] != str_views(after)[j] by {
                    if i < before.len() && j < before.len() {
                        assert(str_views(before)[i] != str_views(before)[j]);
                    } else if i < before.len() {
                        assert(str_views(before)[i] == before[i]@);
                        assert(str_views(before).contains(before[i]@));
                    } else {
                        assert(str_views(before)[j] == before[j]@);
                        assert(str_views(before).contains(before[j]@));
                    }
                }
            }
            let mut ids: Vec<String> = Vec::new();
            core::mem::swap(&mut self.ids, &mut ids);
            ids.push(id);
            self.ids = ids;
            true
        }
    }

    /// Adds every id of a list.
    pub fn extend(&mut self, ids: &Vec<String>)
        ensures
            final(self)@ == old(self)@.union(str_set(ids@)),
    {
        let mut i: usize = 0;
        proof {
            lemma_str_set_empty();
            assert(ids@.subrange(0, 0) =~= Seq::<String>::empty());
            assert(self@.union(Set::<Seq<char>>::empty()) =~= self@);
        }
        while i < ids.len()
            invariant
                0 <= i <= ids@.len(),
                self@ == old(self)@.union(str_set(ids@.subrange(0, i as int))),
            decreases ids@.len() - i,
        {
            proof {
                lemma_str_set_push(ids@.subrange(0, i as int), ids@[i as int]);
                assert(ids@.subrange(0, i as int).push(ids@[i as int]) =~= ids@.subrange(
                    0,
                    i + 1,
                ));
            }
            self.insert(ids[i].clone());
            assert(self@ =~= old(self)@.union(str_set(ids@.subrange(0, i + 1))));
            i = i + 1;
        }
        assert(ids@.subrange(0, i as int) =~= ids@);
    }

    /// The ids as a list, in the order in which they first came.
    pub fn into_vec(self) -> (r: Vec<String>)
        ensures
            r@ == self.order(),
            str_set(r@) == self@,
            str_views(r@).no_duplicates(),
    {
        proof {
            use_type_invariant(&self);
        }
        self.ids
    }
}

} // verus!
