//! Strings as contracts see them: by their characters.

use vstd::prelude::*;
use vstd::string::*;

verus! {

/// The characters of an optional string slice.
pub open spec fn opt_str_view(o: Option<&str>) -> Option<Seq<char>> {
    match o {
        None => None,
        Some(s) => Some(s@),
    }
}

/// The characters of an optional string.
pub open spec fn opt_string_view(o: Option<String>) -> Option<Seq<char>> {
    match o {
        Some(s) => Some(s@),
        None => None,
    }
}

/// Whether two optional strings hold the same characters, or both nothing.
pub fn same_opt_string(a: &Option<String>, b: &Option<String>) -> (r: bool)
    ensures
        r == (opt_string_view(*a) == opt_string_view(*b)),
{
    match (a, b) {
        (None, None) => true,
        (Some(x), Some(y)) => *x == *y,
        _ => false,
    }
}

/// A copy of an optional string.
pub fn clone_opt_string(o: &Option<String>) -> (r: Option<String>)
    ensures
        r == *o,
{
    match o {
        None => None,
        Some(s) => Some(s.clone()),
    }
}

/// The characters of each string of a list.
pub open spec fn str_views(s: Seq<String>) -> Seq<Seq<char>> {
    Seq::new(s.len(), |i: int| s[i]@)
}

/// The strings that a list holds, as a set.
pub open spec fn str_set(s: Seq<String>) -> Set<Seq<char>> {
    Set::new(|v: Seq<char>| exists|i: int| 0 <= i < s.len() && (#[trigger] s[i])@ == v)
}

/// Whether a list of strings holds a string.
pub fn list_contains(list: &Vec<String>, id: &String) -> (r: bool)
    ensures
        r == str_set(list@).contains(id@),
        r == str_views(list@).contains(id@),
{
    let mut i: usize = 0;
    while i < list.len()
        invariant
            0 <= i <= list@.len(),
            forall|j: int| 0 <= j < i ==> (#[trigger] list@[j])@ != id@,
        decreases list@.len() - i,
    {
        if list[i] == *id {
            assert(str_views(list@)[i as int] == id@);
            return true;
        }
        i = i + 1;
    }
    assert(!str_views(list@).contains(id@)) by {
        if str_views(list@).contains(id@) {
            let k = choose|k: int| 0 <= k < str_views(list@).len() && str_views(list@)[k] == id@;
            assert(list@[k]@ == id@);
        }
    }
    false
}

/// A list with one more string at its end holds one more string.
pub proof fn lemma_str_set_push(s: Seq<String>, id: String)
    ensures
        str_set(s.push(id)) == str_set(s).insert(id@),
{
    let t = s.push(id);
    assert forall|v: Seq<char>| str_set(t).contains(v) <==> str_set(s).insert(id@).contains(
        v,
    ) by {
        if str_set(t).contains(v) {
            let i = choose|i: int| 0 <= i < t.len() && (#[trigger] t[i])@ == v;
            if i < s.len() {
                assert(s[i]@ == v);
            }
        }
        if str_set(s).contains(v) {
            let i = choose|i: int| 0 <= i < s.len() && (#[trigger] s[i])@ == v;
            assert(t[i]@ == v);
        }
        if v == id@ {
            assert(t[s.len() as int]@ == v);
        }
    }
    assert(str_set(t) =~= str_set(s).insert(id@));
}

/// The empty list holds nothing.
pub proof fn lemma_str_set_empty()
    ensures
        str_set(Seq::<String>::empty()) == Set::<Seq<char>>::empty(),
{
    assert(str_set(Seq::<String>::empty()) =~= Set::<Seq<char>>::empty());
}

} // verus!
