//! Lossless mapping between a `Task` and the store's attribute map, and the
//! opaque error raised when a stored record cannot be read back as a task.
//!
//! The wire contract: `task_global_id`, `user_uuid`, `task_uuid`, `task_type`,
//! `state` and `source_file` are required string attributes; `result_file` is
//! an optional string attribute whose absence means the task has not produced
//! output yet. An absent `result_file` is deliberately not written as an
//! empty string, so that absence stays distinguishable on read-back.

use vstd::prelude::*;

use crate::attr::AttrMap;
use crate::attr::AttrVal;
use crate::task::parse_state;
use crate::task::state_str;
use crate::task::task_gid;
use crate::task::Task;
use crate::task::TaskState;
use crate::task::TaskV;

verus! {

/// The single opaque error kind of the adapter: a malformed record (missing
/// required attribute, non-string value where a string is required, or a
/// state outside the enumerated set) or a rejected store request.
#[derive(Debug, PartialEq, Eq, Structural)]
pub struct DDBError;

/// Whether the map holds a string-typed value under `k`.
pub open spec fn required_ok(m: Map<Seq<char>, Option<Seq<char>>>, k: Seq<char>) -> bool {
    m.contains_key(k) && m[k] is Some
}

/// The attribute map a task is stored as: one string attribute per required
/// field plus the derived global id, and `result_file` only when present.
pub open spec fn encode_spec(t: TaskV) -> Map<Seq<char>, Option<Seq<char>>> {
    let m = Map::empty().insert("task_global_id"@, Some(task_gid(t))).insert(
        "user_uuid"@,
        Some(t.user_uuid),
    ).insert("task_uuid"@, Some(t.task_uuid)).insert("task_type"@, Some(t.task_type)).insert(
        "state"@,
        Some(state_str(t.state)),
    ).insert("source_file"@, Some(t.source_file));
    match t.result_file {
        Some(r) => m.insert("result_file"@, Some(r)),
        None => m,
    }
}

/// Whether a stored record decodes into a task: every required attribute is
/// present and string-typed, the state parses, and `result_file`, if
/// present, is string-typed.
pub open spec fn decode_ok(m: Map<Seq<char>, Option<Seq<char>>>) -> bool {
    &&& required_ok(m, "user_uuid"@)
    &&& required_ok(m, "task_uuid"@)
    &&& required_ok(m, "task_type"@)
    &&& required_ok(m, "source_file"@)
    &&& required_ok(m, "state"@)
    &&& parse_state(m["state"@].unwrap()) is Some
    &&& (m.contains_key("result_file"@) ==> m["result_file"@] is Some)
}

/// The task a stored record decodes into, or `None` when the record is
/// malformed.
pub open spec fn decode_spec(m: Map<Seq<char>, Option<Seq<char>>>) -> Option<TaskV> {
    if decode_ok(m) {
        Some(
            TaskV {
                user_uuid: m["user_uuid"@].unwrap(),
                task_uuid: m["task_uuid"@].unwrap(),
                task_type: m["task_type"@].unwrap(),
                state: parse_state(m["state"@].unwrap()).unwrap(),
                source_file: m["source_file"@].unwrap(),
                result_file: if m.contains_key("result_file"@) {
                    Some(m["result_file"@].unwrap())
                } else {
                    None
                },
            },
        )
    } else {
        None
    }
}

/// The seven attribute names are pairwise distinct.
proof fn lemma_record_keys_distinct()
    ensures
        "task_global_id"@ != "user_uuid"@,
        "task_global_id"@ != "task_uuid"@,
        "task_global_id"@ != "task_type"@,
        "task_global_id"@ != "state"@,
        "task_global_id"@ != "source_file"@,
        "task_global_id"@ != "result_file"@,
        "user_uuid"@ != "task_uuid"@,
        "user_uuid"@ != "task_type"@,
        "user_uuid"@ != "state"@,
        "user_uuid"@ != "source_file"@,
        "user_uuid"@ != "result_file"@,
        "task_uuid"@ != "task_type"@,
        "task_uuid"@ != "state"@,
        "task_uuid"@ != "source_file"@,
        "task_uuid"@ != "result_file"@,
        "task_type"@ != "state"@,
        "task_type"@ != "source_file"@,
        "task_type"@ != "result_file"@,
        "state"@ != "source_file"@,
        "state"@ != "result_file"@,
        "source_file"@ != "result_file"@,
{
    reveal_strlit("task_global_id");
    reveal_strlit("user_uuid");
    reveal_strlit("task_uuid");
    reveal_strlit("task_type");
    reveal_strlit("state");
    reveal_strlit("source_file");
    reveal_strlit("result_file");
    assert("task_global_id"@.len() == 14);
    assert("user_uuid"@.len() == 9);
    assert("task_uuid"@.len() == 9);
    assert("task_type"@.len() == 9);
    assert("state"@.len() == 5);
    assert("source_file"@.len() == 11);
    assert("result_file"@.len() == 11);
    assert("user_uuid"@[0] == 'u' && "task_uuid"@[0] == 't' && "task_type"@[0] == 't');
    assert("task_uuid"@[5] == 'u' && "task_type"@[5] == 't');
    assert("source_file"@[0] == 's' && "result_file"@[0] == 'r');
}

/// Reads an optional attribute: `Ok(Some(..))` for a present string value,
/// `Ok(None)` for an absent key, and an error for a present value that is
/// not string-typed.
pub fn item_value(key: &str, item: &AttrMap) -> (r: Result<Option<String>, DDBError>)
    ensures
        match r {
            Ok(Some(v)) => item@.contains_key(key@) && item@[key@] == Some(v@),
            Ok(None) => !item@.contains_key(key@),
            Err(_) => item@.contains_key(key@) && item@[key@] is None,
        },
{
    match item.get(key) {
        Some(value) => match value {
            AttrVal::S(v) => Ok(Some(v.clone())),
            AttrVal::Other => Err(DDBError),
        },
        None => Ok(None),
    }
}

/// Reads a required attribute: an absent key or a non-string value is an
/// error.
pub fn required_item_value(key: &str, item: &AttrMap) -> (r: Result<String, DDBError>)
    ensures
        match r {
            Ok(v) => required_ok(item@, key@) && v@ == item@[key@].unwrap(),
            Err(_) => !required_ok(item@, key@),
        },
{
    match item_value(key, item) {
        Ok(Some(value)) => Ok(value),
        Ok(None) => Err(DDBError),
        Err(e) => Err(e),
    }
}

/// Reconstructs a task from a stored record; any missing required attribute,
/// non-string value, or unparseable state yields an explicit error, never a
/// partially populated task.
pub fn item_to_task(item: &AttrMap) -> (r: Result<Task, DDBError>)
    ensures
        match r {
            Ok(t) => decode_spec(item@) == Some(t@),
            Err(_) => decode_spec(item@) is None,
        },
{
    let state_text = match required_item_value("state", item) {
        Ok(v) => v,
        Err(e) => return Err(e),
    };
    let state = match TaskState::from_str(state_text.as_str()) {
        Some(v) => v,
        None => return Err(DDBError),
    };
    let result_file = match item_value("result_file", item) {
        Ok(v) => v,
        Err(e) => return Err(e),
    };
    let user_uuid = match required_item_value("user_uuid", item) {
        Ok(v) => v,
        Err(e) => return Err(e),
    };
    let task_uuid = match required_item_value("task_uuid", item) {
        Ok(v) => v,
        Err(e) => return Err(e),
    };
    let task_type = match required_item_value("task_type", item) {
        Ok(v) => v,
        Err(e) => return Err(e),
    };
    let source_file = match required_item_value("source_file", item) {
        Ok(v) => v,
        Err(e) => return Err(e),
    };
    Ok(Task { user_uuid, task_uuid, task_type, state, source_file, result_file })
}

/// Serializes a task into the attribute map it is stored as. Pure: the task
/// is only read.
pub fn encode_task(task: &Task) -> (m: AttrMap)
    ensures
        m@ == encode_spec(task@),
{
    let mut m = AttrMap::new();
    m.insert("task_global_id".to_owned(), AttrVal::S(task.get_global_id()));
    m.insert("user_uuid".to_owned(), AttrVal::S(task.user_uuid.clone()));
    m.insert("task_uuid".to_owned(), AttrVal::S(task.task_uuid.clone()));
    m.insert("task_type".to_owned(), AttrVal::S(task.task_type.clone()));
    m.insert("state".to_owned(), AttrVal::S(task.state.to_string()));
    m.insert("source_file".to_owned(), AttrVal::S(task.source_file.clone()));
    match &task.result_file {
        Some(result_file) => {
            m.insert("result_file".to_owned(), AttrVal::S(result_file.clone()));
        },
        None => {},
    }
    m
}

/// Round trip: decoding an encoded task gives the task back, field for
/// field, including the presence or absence of `result_file`.
pub proof fn lemma_round_trip(t: TaskV)
    ensures
        decode_spec(encode_spec(t)) == Some(t),
{
    lemma_record_keys_distinct();
    crate::task::lemma_state_round_trip(t.state);
}

/// Optionality: a task without a result file is stored with no
/// `result_file` attribute at all, and one with a result file is stored
/// with exactly that string under `result_file`.
pub proof fn lemma_result_file_optional(t: TaskV)
    ensures
        t.result_file is None ==> !encode_spec(t).contains_key("result_file"@),
        t.result_file is Some ==> encode_spec(t).contains_key("result_file"@) && encode_spec(
            t,
        )["result_file"@] == Some(t.result_file.unwrap()),
{
    lemma_record_keys_distinct();
}

} // verus!
