//! The task model: the `Task` record, its finite `TaskState`, the canonical
//! textual form of a state, and the derived global identity.

use vstd::prelude::*;
use vstd::string::StrSliceExecFns;
use vstd::string::StringExecFns;

verus! {

/// Lifecycle stage of a task, persisted as its canonical string form.
#[derive(Debug, Clone, Copy, PartialEq, Eq, Structural)]
pub enum TaskState {
    Pending,
    InProgress,
    Done,
    Failed,
}

/// Canonical textual form of a state.
pub open spec fn state_str(s: TaskState) -> Seq<char> {
    match s {
        TaskState::Pending => "Pending"@,
        TaskState::InProgress => "InProgress"@,
        TaskState::Done => "Done"@,
        TaskState::Failed => "Failed"@,
    }
}

/// Parsing a textual form back into a state: exactly the four canonical
/// strings parse, anything else is rejected.
pub open spec fn parse_state(s: Seq<char>) -> Option<TaskState> {
    if s == state_str(TaskState::Pending) {
        Some(TaskState::Pending)
    } else if s == state_str(TaskState::InProgress) {
        Some(TaskState::InProgress)
    } else if s == state_str(TaskState::Done) {
        Some(TaskState::Done)
    } else if s == state_str(TaskState::Failed) {
        Some(TaskState::Failed)
    } else {
        None
    }
}

/// The four canonical state strings are pairwise distinct (they already
/// differ in length).
proof fn lemma_state_strings_distinct()
    ensures
        state_str(TaskState::Pending) != state_str(TaskState::InProgress),
        state_str(TaskState::Pending) != state_str(TaskState::Done),
        state_str(TaskState::Pending) != state_str(TaskState::Failed),
        state_str(TaskState::InProgress) != state_str(TaskState::Done),
        state_str(TaskState::InProgress) != state_str(TaskState::Failed),
        state_str(TaskState::Done) != state_str(TaskState::Failed),
{
    reveal_strlit("Pending");
    reveal_strlit("InProgress");
    reveal_strlit("Done");
    reveal_strlit("Failed");
    assert(state_str(TaskState::Pending).len() == 7);
    assert(state_str(TaskState::InProgress).len() == 10);
    assert(state_str(TaskState::Done).len() == 4);
    assert(state_str(TaskState::Failed).len() == 6);
}

/// Every state's canonical string parses back to that same state.
pub proof fn lemma_state_round_trip(s: TaskState)
    ensures
        parse_state(state_str(s)) == Some(s),
{
    lemma_state_strings_distinct();
}

impl TaskState {
    /// The canonical string form under which the state is stored.
    pub fn to_string(&self) -> (r: String)
        ensures
            r@ == state_str(*self),
    {
        match self {
            TaskState::Pending => "Pending".to_owned(),
            TaskState::InProgress => "InProgress".to_owned(),
            TaskState::Done => "Done".to_owned(),
            TaskState::Failed => "Failed".to_owned(),
        }
    }

    /// Parses a stored string form; returns `None` on anything outside the
    /// enumerated set.
    pub fn from_str(s: &str) -> (r: Option<TaskState>)
        ensures
            r == parse_state(s@),
    {
        if str_eq(s, "Pending") {
            Some(TaskState::Pending)
        } else if str_eq(s, "InProgress") {
            Some(TaskState::InProgress)
        } else if str_eq(s, "Done") {
            Some(TaskState::Done)
        } else if str_eq(s, "Failed") {
            Some(TaskState::Failed)
        } else {
            None
        }
    }
}

/// The decimal digit character for one digit value.
pub open spec fn digit_char(d: nat) -> char {
    if d == 0 {
        '0'
    } else if d == 1 {
        '1'
    } else if d == 2 {
        '2'
    } else if d == 3 {
        '3'
    } else if d == 4 {
        '4'
    } else if d == 5 {
        '5'
    } else if d == 6 {
        '6'
    } else if d == 7 {
        '7'
    } else if d == 8 {
        '8'
    } else {
        '9'
    }
}

/// Decimal rendering of a natural number, most significant digit first.
pub open spec fn dec_digits(n: nat) -> Seq<char>
    decreases n,
{
    if n < 10 {
        seq![digit_char(n)]
    } else {
        dec_digits(n / 10) + seq![digit_char(n % 10)]
    }
}

proof fn lemma_dec_digits_len(n: nat)
    ensures
        dec_digits(n).len() >= 1,
    decreases n,
{
    if n >= 10 {
        lemma_dec_digits_len(n / 10);
    }
}

/// A decimal rendering never contains the separator character.
proof fn lemma_dec_digits_no_sep(n: nat)
    ensures
        forall|i: int| 0 <= i < dec_digits(n).len() ==> dec_digits(n)[i] != '_',
    decreases n,
{
    if n >= 10 {
        lemma_dec_digits_no_sep(n / 10);
        assert forall|i: int| 0 <= i < dec_digits(n).len() implies dec_digits(n)[i] != '_' by {
            if i < dec_digits(n / 10).len() {
                assert(dec_digits(n)[i] == dec_digits(n / 10)[i]);
            } else {
                assert(dec_digits(n)[i] == digit_char(n % 10));
            }
        }
    }
}

/// Decimal rendering is injective.
proof fn lemma_dec_digits_injective(a: nat, b: nat)
    requires
        dec_digits(a) == dec_digits(b),
    ensures
        a == b,
    decreases a,
{
    lemma_dec_digits_len(a);
    lemma_dec_digits_len(b);
    if a < 10 && b < 10 {
        assert(dec_digits(a)[0] == digit_char(a));
        assert(dec_digits(b)[0] == digit_char(b));
    } else if a < 10 {
        lemma_dec_digits_len(b / 10);
        assert(dec_digits(b).len() >= 2);
        assert(false);
    } else if b < 10 {
        lemma_dec_digits_len(a / 10);
        assert(dec_digits(a).len() >= 2);
        assert(false);
    } else {
        let pa = dec_digits(a / 10);
        let pb = dec_digits(b / 10);
        assert(dec_digits(a)[dec_digits(a).len() - 1] == digit_char(a % 10));
        assert(dec_digits(b)[dec_digits(b).len() - 1] == digit_char(b % 10));
        assert(a % 10 == b % 10);
        assert(pa =~= pb) by {
            assert(pa.len() == pb.len());
            assert forall|i: int| 0 <= i < pa.len() implies pa[i] == pb[i] by {
                assert(dec_digits(a)[i] == pa[i]);
                assert(dec_digits(b)[i] == pb[i]);
            }
        }
        lemma_dec_digits_injective(a / 10, b / 10);
    }
}

/// The derived global identity of a task: the length of the user identifier
/// in decimal, a separator, the user identifier, a separator, and the task
/// identifier. The length prefix makes the combination unambiguous even when
/// a field itself contains the separator.
pub open spec fn global_id_seq(user_uuid: Seq<char>, task_uuid: Seq<char>) -> Seq<char> {
    dec_digits(user_uuid.len()) + seq!['_'] + user_uuid + seq!['_'] + task_uuid
}

/// How each position of a global id relates to the pieces it was built from.
proof fn lemma_global_id_structure(u: Seq<char>, k: Seq<char>)
    ensures
        global_id_seq(u, k).len() == dec_digits(u.len()).len() + u.len() + k.len() + 2,
        forall|i: int|
            0 <= i < dec_digits(u.len()).len() ==> global_id_seq(u, k)[i] == dec_digits(
                u.len(),
            )[i],
        global_id_seq(u, k)[dec_digits(u.len()).len() as int] == '_',
        forall|i: int|
            0 <= i < u.len() ==> global_id_seq(u, k)[dec_digits(u.len()).len() + 1 + i] == u[i],
        global_id_seq(u, k)[dec_digits(u.len()).len() + 1 + u.len() as int] == '_',
        forall|i: int|
            0 <= i < k.len() ==> global_id_seq(u, k)[dec_digits(u.len()).len() + 2 + u.len() + i]
                == k[i],
{
}

/// Identity determinism and collision freedom: the global id is a pure
/// function of the pair, and equal ids can only come from equal pairs, even
/// when one field contains the separator character.
pub proof fn lemma_global_id_injective(u1: Seq<char>, k1: Seq<char>, u2: Seq<char>, k2: Seq<char>)
    requires
        global_id_seq(u1, k1) == global_id_seq(u2, k2),
    ensures
        u1 == u2,
        k1 == k2,
{
    let d1 = dec_digits(u1.len());
    let d2 = dec_digits(u2.len());
    let s = global_id_seq(u1, k1);
    lemma_global_id_structure(u1, k1);
    lemma_global_id_structure(u2, k2);
    lemma_dec_digits_no_sep(u1.len());
    lemma_dec_digits_no_sep(u2.len());
    if d1.len() < d2.len() {
        assert(s[d1.len() as int] == '_');
        assert(s[d1.len() as int] == d2[d1.len() as int]);
        assert(false);
    }
    if d2.len() < d1.len() {
        assert(s[d2.len() as int] == '_');
        assert(s[d2.len() as int] == d1[d2.len() as int]);
        assert(false);
    }
    assert(d1 =~= d2) by {
        assert forall|i: int| 0 <= i < d1.len() implies d1[i] == d2[i] by {
            assert(s[i] == d1[i]);
            assert(s[i] == d2[i]);
        }
    }
    lemma_dec_digits_injective(u1.len(), u2.len());
    assert(u1 =~= u2) by {
        assert forall|i: int| 0 <= i < u1.len() implies u1[i] == u2[i] by {
            assert(s[d1.len() + 1 + i] == u1[i]);
            assert(s[d2.len() + 1 + i] == u2[i]);
        }
    }
    assert(k1 =~= k2) by {
        assert(k1.len() == k2.len());
        assert forall|i: int| 0 <= i < k1.len() implies k1[i] == k2[i] by {
            assert(s[d1.len() + 2 + u1.len() + i] == k1[i]);
            assert(s[d2.len() + 2 + u2.len() + i] == k2[i]);
        }
    }
}

fn digit_str(d: usize) -> (r: &'static str)
    requires
        d < 10,
    ensures
        r@ == seq![digit_char(d as nat)],
{
    proof {
        reveal_strlit("0");
        reveal_strlit("1");
        reveal_strlit("2");
        reveal_strlit("3");
        reveal_strlit("4");
        reveal_strlit("5");
        reveal_strlit("6");
        reveal_strlit("7");
        reveal_strlit("8");
        reveal_strlit("9");
        assert("0"@ =~= seq!['0']);
        assert("1"@ =~= seq!['1']);
        assert("2"@ =~= seq!['2']);
        assert("3"@ =~= seq!['3']);
        assert("4"@ =~= seq!['4']);
        assert("5"@ =~= seq!['5']);
        assert("6"@ =~= seq!['6']);
        assert("7"@ =~= seq!['7']);
        assert("8"@ =~= seq!['8']);
        assert("9"@ =~= seq!['9']);
    }
    if d == 0 {
        "0"
    } else if d == 1 {
        "1"
    } else if d == 2 {
        "2"
    } else if d == 3 {
        "3"
    } else if d == 4 {
        "4"
    } else if d == 5 {
        "5"
    } else if d == 6 {
        "6"
    } else if d == 7 {
        "7"
    } else if d == 8 {
        "8"
    } else {
        "9"
    }
}

fn dec_string(n: usize) -> (r: String)
    ensures
        r@ == dec_digits(n as nat),
    decreases n,
{
    if n < 10 {
        digit_str(n).to_owned()
    } else {
        let prefix = dec_string(n / 10);
        prefix.concat(digit_str(n % 10))
    }
}

/// The derived global identity as a string.
pub fn global_id(user_uuid: &str, task_uuid: &str) -> (r: String)
    ensures
        r@ == global_id_seq(user_uuid@, task_uuid@),
{
    let mut s = dec_string(user_uuid.unicode_len());
    s.append("_");
    s.append(user_uuid);
    s.append("_");
    s.append(task_uuid);
    proof {
        reveal_strlit("_");
        assert("_"@ =~= seq!['_']);
    }
    s
}

/// String equality by content.
pub(crate) fn str_eq(a: &str, b: &str) -> (r: bool)
    ensures
        r == (a@ == b@),
{
    let x: String = a.to_owned();
    let y: String = b.to_owned();
    x == y
}

/// The mathematical value of a task: each field as a character sequence, the
/// state as itself, and the optional result reference with its presence kept
/// distinct from emptiness.
pub ghost struct TaskV {
    pub user_uuid: Seq<char>,
    pub task_uuid: Seq<char>,
    pub task_type: Seq<char>,
    pub state: TaskState,
    pub source_file: Seq<char>,
    pub result_file: Option<Seq<char>>,
}

/// One unit of asynchronous work. The producer constructing a task is
/// expected to fill every required field with a non-empty string; the
/// adapter never invents defaults and never mutates a task.
#[derive(Debug, Clone, PartialEq, Eq)]
pub struct Task {
    pub user_uuid: String,
    pub task_uuid: String,
    pub task_type: String,
    pub state: TaskState,
    pub source_file: String,
    pub result_file: Option<String>,
}

impl View for Task {
    type V = TaskV;

    open spec fn view(&self) -> TaskV {
        TaskV {
            user_uuid: self.user_uuid@,
            task_uuid: self.task_uuid@,
            task_type: self.task_type@,
            state: self.state,
            source_file: self.source_file@,
            result_file: match self.result_file {
                Some(s) => Some(s@),
                None => None,
            },
        }
    }
}

/// The global id of a task value.
pub open spec fn task_gid(t: TaskV) -> Seq<char> {
    global_id_seq(t.user_uuid, t.task_uuid)
}

impl Task {
    /// The global id of the task, as the store keys it.
    pub fn get_global_id(&self) -> (r: String)
        ensures
            r@ == task_gid(self@),
    {
        global_id(self.user_uuid.as_str(), self.task_uuid.as_str())
    }
}

} // verus!
