//! The store's native record shape: a flat map from attribute names to typed
//! scalar values. Only string-typed values carry task data; every other
//! scalar kind is kept opaque, since the schema expects strings everywhere.

use vstd::prelude::*;

use crate::task::str_eq;

verus! {

/// One attribute value: a string, or a value of any other scalar kind.
#[derive(Debug, Clone, PartialEq, Eq)]
pub enum AttrVal {
    /// A string-typed value.
    S(String),
    /// A value of some non-string kind; its content never carries task data.
    Other,
}

impl View for AttrVal {
    type V = Option<Seq<char>>;

    /// A string value is its character sequence; a non-string value is
    /// `None`.
    open spec fn view(&self) -> Option<Seq<char>> {
        match self {
            AttrVal::S(s) => Some(s@),
            AttrVal::Other => None,
        }
    }
}

/// An attribute map, viewed as a finite map from attribute names to value
/// views. Entries are kept in insertion order; a later entry for the same
/// name overrides an earlier one.
#[derive(Debug, Clone, PartialEq, Eq)]
pub struct AttrMap {
    entries: Vec<(String, AttrVal)>,
}

/// The map denoted by a sequence of entries, later entries winning.
spec fn entries_map(s: Seq<(String, AttrVal)>) -> Map<Seq<char>, Option<Seq<char>>>
    decreases s.len(),
{
    if s.len() == 0 {
        Map::empty()
    } else {
        entries_map(s.drop_last()).insert(s.last().0@, s.last().1@)
    }
}

impl View for AttrMap {
    type V = Map<Seq<char>, Option<Seq<char>>>;

    closed spec fn view(&self) -> Map<Seq<char>, Option<Seq<char>>> {
        entries_map(self.entries@)
    }
}

/// An entry at `i` whose key does not recur later is what the map holds for
/// that key.
proof fn lemma_entries_map_get(s: Seq<(String, AttrVal)>, k: Seq<char>, i: int)
    requires
        0 <= i < s.len(),
        s[i].0@ == k,
        forall|j: int| i < j < s.len() ==> s[j].0@ != k,
    ensures
        entries_map(s).contains_key(k),
        entries_map(s)[k] == s[i].1@,
    decreases s.len(),
{
    if i == s.len() - 1 {
    } else {
        assert(s.last().0@ != k);
        assert(s.drop_last()[i] == s[i]);
        lemma_entries_map_get(s.drop_last(), k, i);
    }
}

/// Every written key is in the map.
proof fn lemma_entries_map_keys(s: Seq<(String, AttrVal)>)
    ensures
        forall|i: int| 0 <= i < s.len() ==> entries_map(s).contains_key(#[trigger] s[i].0@),
    decreases s.len(),
{
    if s.len() > 0 {
        lemma_entries_map_keys(s.drop_last());
        assert forall|i: int| 0 <= i < s.len() implies entries_map(s).contains_key(
            #[trigger] s[i].0@,
        ) by {
            if i < s.len() - 1 {
                assert(s.drop_last()[i] == s[i]);
            }
        }
    }
}

/// A key that occurs in no entry is absent from the map.
proof fn lemma_entries_map_absent(s: Seq<(String, AttrVal)>, k: Seq<char>)
    requires
        forall|j: int| 0 <= j < s.len() ==> s[j].0@ != k,
    ensures
        !entries_map(s).contains_key(k),
    decreases s.len(),
{
    if s.len() > 0 {
        lemma_entries_map_absent(s.drop_last(), k);
    }
}

impl AttrMap {
    /// An empty attribute map.
    pub fn new() -> (r: AttrMap)
        ensures
            r@ == Map::<Seq<char>, Option<Seq<char>>>::empty(),
    {
        AttrMap { entries: Vec::new() }
    }

    /// Sets the value stored under `key`, replacing any earlier value.
    pub fn insert(&mut self, key: String, value: AttrVal)
        ensures
            final (self)@ == old(self)@.insert(key@, value@),
    {
        self.entries.push((key, value));
        proof {
            assert(self.entries@.drop_last() =~= old(self).entries@);
        }
    }

    /// The entries in write order, for handing the record to a store whose
    /// own record type is built entry by entry. Every listed key is a key of
    /// the map.
    pub fn entries(&self) -> (r: &Vec<(String, AttrVal)>)
        ensures
            forall|i: int| 0 <= i < r@.len() ==> self@.contains_key(#[trigger] r@[i].0@),
    {
        proof {
            lemma_entries_map_keys(self.entries@);
        }
        &self.entries
    }

    /// Looks up the value stored under `key`.
    pub fn get(&self, key: &str) -> (r: Option<&AttrVal>)
        ensures
            match r {
                Some(v) => self@.contains_key(key@) && v@ == self@[key@],
                None => !self@.contains_key(key@),
            },
    {
        let mut i = self.entries.len();
        while i > 0
            invariant
                i <= self.entries.len(),
                forall|j: int| i <= j < self.entries@.len() ==> self.entries@[j].0@ != key@,
            decreases i,
        {
            i = i - 1;
            if str_eq(self.entries[i].0.as_str(), key) {
                proof {
                    lemma_entries_map_get(self.entries@, key@, i as int);
                }
                return Some(&self.entries[i].1);
            }
        }
        proof {
            lemma_entries_map_absent(self.entries@, key@);
        }
        None
    }
}

} // verus!
