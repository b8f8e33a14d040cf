use task_repository::attr::AttrMap;
use task_repository::attr::AttrVal;
use task_repository::codec::encode_task;
use task_repository::codec::item_to_task;
use task_repository::codec::item_value;
use task_repository::codec::required_item_value;
use task_repository::codec::DDBError;
use task_repository::store::fetch_outcome;
use task_repository::store::MemStore;
use task_repository::task::global_id;
use task_repository::task::Task;
use task_repository::task::TaskState;

fn task(user: &str, id: &str, state: TaskState, result_file: Option<&str>) -> Task {
    Task {
        user_uuid: user.to_string(),
        task_uuid: id.to_string(),
        task_type: "resize".to_string(),
        state,
        source_file: "in.png".to_string(),
        result_file: result_file.map(|s| s.to_string()),
    }
}

fn full_record(state: &str) -> AttrMap {
    let mut m = AttrMap::new();
    m.insert("user_uuid".to_string(), AttrVal::S("u1".to_string()));
    m.insert("task_uuid".to_string(), AttrVal::S("t1".to_string()));
    m.insert("task_type".to_string(), AttrVal::S("resize".to_string()));
    m.insert("state".to_string(), AttrVal::S(state.to_string()));
    m.insert("source_file".to_string(), AttrVal::S("in.png".to_string()));
    m
}

#[test]
fn state_round_trips_through_its_string_form() {
    let all = [TaskState::Pending, TaskState::InProgress, TaskState::Done, TaskState::Failed];
    for state in all {
        let text = state.to_string();
        assert_eq!(TaskState::from_str(text.as_str()), Some(state));
    }
    assert_eq!(TaskState::Pending.to_string(), "Pending".to_string());
    assert_eq!(TaskState::InProgress.to_string(), "InProgress".to_string());
    assert_eq!(TaskState::Done.to_string(), "Done".to_string());
    assert_eq!(TaskState::Failed.to_string(), "Failed".to_string());
}

#[test]
fn state_parse_rejects_strings_outside_the_set() {
    assert_eq!(TaskState::from_str("bogus"), None);
    assert_eq!(TaskState::from_str("pending"), None);
    assert_eq!(TaskState::from_str(""), None);
}

#[test]
fn global_id_is_deterministic() {
    assert_eq!(global_id("u1", "t1"), global_id("u1", "t1"));
    assert_eq!(global_id("u1", "t1"), "2_u1_t1".to_string());
}

#[test]
fn global_id_does_not_collide_on_adversarial_separators() {
    assert_ne!(global_id("a_b", "c"), global_id("a", "b_c"));
    assert_ne!(global_id("a_", "c"), global_id("a", "_c"));
    assert_ne!(global_id("", "a_b"), global_id("a", "b"));
    assert_ne!(global_id("a", "b"), global_id("b", "a"));
}

#[test]
fn get_global_id_matches_the_identity_function() {
    let t = task("u1", "t1", TaskState::Pending, None);
    assert_eq!(t.get_global_id(), global_id("u1", "t1"));
}

#[test]
fn encoding_without_result_file_omits_the_key() {
    let record = encode_task(&task("u1", "t1", TaskState::Pending, None));
    assert!(record.get("result_file").is_none());
    assert_eq!(record.get("user_uuid"), Some(&AttrVal::S("u1".to_string())));
    assert_eq!(record.get("state"), Some(&AttrVal::S("Pending".to_string())));
    assert_eq!(record.get("task_global_id"), Some(&AttrVal::S("2_u1_t1".to_string())));
}

#[test]
fn encoding_with_result_file_keeps_it() {
    let record = encode_task(&task("u1", "t1", TaskState::Done, Some("x")));
    assert_eq!(record.get("result_file"), Some(&AttrVal::S("x".to_string())));
}

#[test]
fn round_trip_without_result_file() {
    let t = task("u1", "t1", TaskState::Pending, None);
    let decoded = item_to_task(&encode_task(&t)).unwrap();
    assert_eq!(decoded, t);
    assert_eq!(decoded.result_file, None);
}

#[test]
fn round_trip_with_result_file() {
    let t = task("u2", "t9", TaskState::Done, Some("x"));
    let decoded = item_to_task(&encode_task(&t)).unwrap();
    assert_eq!(decoded, t);
    assert_eq!(decoded.result_file, Some("x".to_string()));
}

#[test]
fn round_trip_keeps_empty_string_distinct_from_absence() {
    let t = task("u1", "t1", TaskState::Done, Some(""));
    let decoded = item_to_task(&encode_task(&t)).unwrap();
    assert_eq!(decoded.result_file, Some(String::new()));
}

#[test]
fn decode_fails_on_missing_user_uuid() {
    let mut m = AttrMap::new();
    m.insert("task_uuid".to_string(), AttrVal::S("t1".to_string()));
    m.insert("task_type".to_string(), AttrVal::S("resize".to_string()));
    m.insert("state".to_string(), AttrVal::S("Pending".to_string()));
    m.insert("source_file".to_string(), AttrVal::S("in.png".to_string()));
    assert_eq!(item_to_task(&m), Err(DDBError));
}

#[test]
fn decode_fails_on_bogus_state() {
    let m = full_record("bogus");
    assert_eq!(item_to_task(&m), Err(DDBError));
}

#[test]
fn decode_accepts_every_canonical_state_form() {
    assert_eq!(item_to_task(&full_record("Pending")).unwrap().state, TaskState::Pending);
    assert_eq!(item_to_task(&full_record("InProgress")).unwrap().state, TaskState::InProgress);
    assert_eq!(item_to_task(&full_record("Done")).unwrap().state, TaskState::Done);
    assert_eq!(item_to_task(&full_record("Failed")).unwrap().state, TaskState::Failed);
}

#[test]
fn decode_fails_on_non_string_required_value() {
    let mut m = full_record("Pending");
    m.insert("user_uuid".to_string(), AttrVal::Other);
    assert_eq!(item_to_task(&m), Err(DDBError));
}

#[test]
fn decode_fails_on_non_string_result_file() {
    let mut m = full_record("Pending");
    m.insert("result_file".to_string(), AttrVal::Other);
    assert_eq!(item_to_task(&m), Err(DDBError));
}

#[test]
fn item_value_distinguishes_absent_present_and_non_string() {
    let mut m = AttrMap::new();
    m.insert("a".to_string(), AttrVal::S("v".to_string()));
    m.insert("b".to_string(), AttrVal::Other);
    assert_eq!(item_value("a", &m), Ok(Some("v".to_string())));
    assert_eq!(item_value("missing", &m), Ok(None));
    assert_eq!(item_value("b", &m), Err(DDBError));
}

#[test]
fn required_item_value_rejects_absent_keys() {
    let mut m = AttrMap::new();
    m.insert("a".to_string(), AttrVal::S("v".to_string()));
    assert_eq!(required_item_value("a", &m), Ok("v".to_string()));
    assert_eq!(required_item_value("missing", &m), Err(DDBError));
    m.insert("a".to_string(), AttrVal::Other);
    assert_eq!(required_item_value("a", &m), Err(DDBError));
}

#[test]
fn attr_map_later_insert_overrides_earlier() {
    let mut m = AttrMap::new();
    m.insert("k".to_string(), AttrVal::S("first".to_string()));
    m.insert("k".to_string(), AttrVal::S("second".to_string()));
    assert_eq!(m.get("k"), Some(&AttrVal::S("second".to_string())));
}

#[test]
fn fetching_an_id_never_stored_returns_none() {
    let store = MemStore::new();
    assert_eq!(store.get_task("nope"), None);
    assert_eq!(store.get_task(global_id("u1", "t1").as_str()), None);
}

#[test]
fn storing_then_fetching_returns_an_equal_task() {
    let mut store = MemStore::new();
    let t = task("u1", "t1", TaskState::Pending, None);
    store.put_task(&t);
    assert_eq!(store.get_task(t.get_global_id().as_str()), Some(t));
}

#[test]
fn distinct_identities_are_not_confused() {
    let mut store = MemStore::new();
    let t1 = task("u1", "t1", TaskState::Pending, None);
    let t2 = task("u2", "t2", TaskState::Done, Some("out.png"));
    store.put_task(&t1);
    store.put_task(&t2);
    assert_eq!(store.get_task(t1.get_global_id().as_str()), Some(t1));
    assert_eq!(store.get_task(t2.get_global_id().as_str()), Some(t2));
}

#[test]
fn overwriting_the_same_identity_is_last_write_wins() {
    let mut store = MemStore::new();
    let first = task("u1", "t1", TaskState::Pending, None);
    let second = task("u1", "t1", TaskState::Failed, None);
    store.put_task(&first);
    store.put_task(&second);
    let fetched = store.get_task(first.get_global_id().as_str()).unwrap();
    assert_eq!(fetched.state, TaskState::Failed);
    assert_eq!(fetched, second);
}

#[test]
fn fetching_a_corrupt_record_returns_none() {
    let mut store = MemStore::new();
    store.put_item("bad".to_string(), full_record("bogus"));
    assert_eq!(store.get_task("bad"), None);
}

#[test]
fn fetch_outcome_folds_all_failure_paths_into_none() {
    assert_eq!(fetch_outcome(None), None);
    let malformed = full_record("bogus");
    assert_eq!(fetch_outcome(Some(&malformed)), None);
    let t = task("u1", "t1", TaskState::Pending, None);
    let good = encode_task(&t);
    assert_eq!(fetch_outcome(Some(&good)), Some(t));
}

#[test]
fn end_to_end_store_fetch_update_scenario() {
    let mut store = MemStore::new();
    let pending = task("u1", "t1", TaskState::Pending, None);
    store.put_task(&pending);
    let fetched = store.get_task(global_id("u1", "t1").as_str()).unwrap();
    assert_eq!(fetched, pending);
    assert_eq!(fetched.result_file, None);

    let done = task("u1", "t1", TaskState::Done, Some("out.png"));
    store.put_task(&done);
    let fetched = store.get_task(global_id("u1", "t1").as_str()).unwrap();
    assert_eq!(fetched.state, TaskState::Done);
    assert_eq!(fetched.result_file, Some("out.png".to_string()));
}
