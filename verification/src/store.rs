//! Store semantics. The remote store exposes two primitives — upsert a whole
//! record by primary key, and get a record by key — with last-write-wins
//! ordering per key. `MemStore` is an in-memory store with exactly those
//! primitives and a verified contract for each, serving as the test double
//! the adapter's semantics are stated and proved against.

use vstd::prelude::*;

use crate::attr::AttrMap;
use crate::codec::decode_spec;
use crate::codec::encode_spec;
use crate::codec::encode_task;
use crate::codec::item_to_task;
use crate::codec::lemma_round_trip;
use crate::task::lemma_global_id_injective;
use crate::task::str_eq;
use crate::task::task_gid;
use crate::task::Task;
use crate::task::TaskV;

verus! {

/// A key-value store held in memory: a finite map from global ids to stored
/// records. Entries are kept in write order; a later write to the same key
/// overrides an earlier one.
#[derive(Debug)]
pub struct MemStore {
    entries: Vec<(String, AttrMap)>,
}

/// The map denoted by a sequence of writes, later writes winning.
spec fn writes_map(s: Seq<(String, AttrMap)>) -> Map<Seq<char>, Map<Seq<char>, Option<Seq<char>>>>
    decreases s.len(),
{
    if s.len() == 0 {
        Map::empty()
    } else {
        writes_map(s.drop_last()).insert(s.last().0@, s.last().1@)
    }
}

impl View for MemStore {
    type V = Map<Seq<char>, Map<Seq<char>, Option<Seq<char>>>>;

    closed spec fn view(&self) -> Map<Seq<char>, Map<Seq<char>, Option<Seq<char>>>> {
        writes_map(self.entries@)
    }
}

proof fn lemma_writes_map_get(s: Seq<(String, AttrMap)>, k: Seq<char>, i: int)
    requires
        0 <= i < s.len(),
        s[i].0@ == k,
        forall|j: int| i < j < s.len() ==> s[j].0@ != k,
    ensures
        writes_map(s).contains_key(k),
        writes_map(s)[k] == s[i].1@,
    decreases s.len(),
{
    if i == s.len() - 1 {
    } else {
        assert(s.drop_last()[i] == s[i]);
        lemma_writes_map_get(s.drop_last(), k, i);
    }
}

proof fn lemma_writes_map_absent(s: Seq<(String, AttrMap)>, k: Seq<char>)
    requires
        forall|j: int| 0 <= j < s.len() ==> s[j].0@ != k,
    ensures
        !writes_map(s).contains_key(k),
    decreases s.len(),
{
    if s.len() > 0 {
        lemma_writes_map_absent(s.drop_last(), k);
    }
}

/// What a fetch returns over a store's map: the decoded task when the key
/// holds a record that decodes cleanly, and `None` when the key is absent or
/// the record is malformed.
pub open spec fn fetch_spec(
    s: Map<Seq<char>, Map<Seq<char>, Option<Seq<char>>>>,
    id: Seq<char>,
) -> Option<TaskV> {
    if s.contains_key(id) {
        decode_spec(s[id])
    } else {
        None
    }
}

/// Folds a fetched record into the adapter's two-valued result: a record
/// that decodes cleanly becomes the task, and an absent or malformed record
/// becomes `None`. The caller of a fetch cannot tell those apart by design.
pub fn fetch_outcome(found: Option<&AttrMap>) -> (r: Option<Task>)
    ensures
        match found {
            Some(item) => match r {
                Some(t) => decode_spec(item@) == Some(t@),
                None => decode_spec(item@) is None,
            },
            None => r is None,
        },
{
    match found {
        Some(item) => match item_to_task(item) {
            Ok(task) => Some(task),
            Err(_) => None,
        },
        None => None,
    }
}

impl MemStore {
    /// An empty store.
    pub fn new() -> (r: MemStore)
        ensures
            r@ == Map::<Seq<char>, Map<Seq<char>, Option<Seq<char>>>>::empty(),
    {
        MemStore { entries: Vec::new() }
    }

    /// Upserts a whole record under `key`, overwriting any record already
    /// stored there.
    pub fn put_item(&mut self, key: String, item: AttrMap)
        ensures
            final (self)@ == old(self)@.insert(key@, item@),
    {
        self.entries.push((key, item));
        proof {
            assert(self.entries@.drop_last() =~= old(self).entries@);
        }
    }

    /// Gets the record stored under `key`, if any.
    pub fn get_item(&self, key: &str) -> (r: Option<&AttrMap>)
        ensures
            match r {
                Some(item) => self@.contains_key(key@) && item@ == self@[key@],
                None => !self@.contains_key(key@),
            },
    {
        let mut i = self.entries.len();
        while i > 0
            invariant
                i <= self.entries.len(),
                forall|j: int| i <= j < self.entries@.len() ==> self.entries@[j].0@ != key@,
            decreases i,
        {
            i = i - 1;
            if str_eq(self.entries[i].0.as_str(), key) {
                proof {
                    lemma_writes_map_get(self.entries@, key@, i as int);
                }
                return Some(&self.entries[i].1);
            }
        }
        proof {
            lemma_writes_map_absent(self.entries@, key@);
        }
        None
    }

    /// Stores a task: encodes it and writes the whole record under its
    /// derived global id, overwriting any record with the same id. The task
    /// itself is only read.
    pub fn put_task(&mut self, task: &Task)
        ensures
            final (self)@ == old(self)@.insert(task_gid(task@), encode_spec(task@)),
    {
        let item = encode_task(task);
        self.put_item(task.get_global_id(), item);
    }

    /// Fetches a task by global id. A missing record, a record that fails to
    /// decode, and a failing request are all reported as `None`: the caller
    /// cannot distinguish them by design.
    pub fn get_task(&self, task_id: &str) -> (r: Option<Task>)
        ensures
            match r {
                Some(t) => fetch_spec(self@, task_id@) == Some(t@),
                None => fetch_spec(self@, task_id@) is None,
            },
    {
        fetch_outcome(self.get_item(task_id))
    }
}

/// Fetching an id that was never stored returns nothing.
pub proof fn lemma_fetch_never_stored(
    s: Map<Seq<char>, Map<Seq<char>, Option<Seq<char>>>>,
    id: Seq<char>,
)
    requires
        !s.contains_key(id),
    ensures
        fetch_spec(s, id) is None,
{
}

/// Storing a task and then fetching its own global id returns a task equal
/// to the one stored.
pub proof fn lemma_store_then_fetch(
    s: Map<Seq<char>, Map<Seq<char>, Option<Seq<char>>>>,
    t: TaskV,
)
    ensures
        fetch_spec(s.insert(task_gid(t), encode_spec(t)), task_gid(t)) == Some(t),
{
    lemma_round_trip(t);
}

/// Storing two tasks with distinct `(user_uuid, task_uuid)` pairs keeps the
/// records apart: fetching either global id returns the matching task, never
/// the other one.
pub proof fn lemma_distinct_tasks_not_confused(
    s: Map<Seq<char>, Map<Seq<char>, Option<Seq<char>>>>,
    t1: TaskV,
    t2: TaskV,
)
    requires
        t1.user_uuid != t2.user_uuid || t1.task_uuid != t2.task_uuid,
    ensures
        fetch_spec(
            s.insert(task_gid(t1), encode_spec(t1)).insert(task_gid(t2), encode_spec(t2)),
            task_gid(t1),
        ) == Some(t1),
        fetch_spec(
            s.insert(task_gid(t1), encode_spec(t1)).insert(task_gid(t2), encode_spec(t2)),
            task_gid(t2),
        ) == Some(t2),
{
    if task_gid(t1) == task_gid(t2) {
        lemma_global_id_injective(t1.user_uuid, t1.task_uuid, t2.user_uuid, t2.task_uuid);
    }
    lemma_round_trip(t1);
    lemma_round_trip(t2);
}

/// Last write wins: storing a task and then a second one with the same
/// `(user_uuid, task_uuid)` leaves the second task's record, so a fetch
/// returns the second task, not the first.
pub proof fn lemma_overwrite(
    s: Map<Seq<char>, Map<Seq<char>, Option<Seq<char>>>>,
    t1: TaskV,
    t2: TaskV,
)
    requires
        t1.user_uuid == t2.user_uuid,
        t1.task_uuid == t2.task_uuid,
    ensures
        fetch_spec(
            s.insert(task_gid(t1), encode_spec(t1)).insert(task_gid(t2), encode_spec(t2)),
            task_gid(t1),
        ) == Some(t2),
{
    lemma_round_trip(t2);
}

} // verus!
