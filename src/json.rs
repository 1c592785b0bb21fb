use vstd::prelude::*;

verus! {

#[verifier::external_type_specification]
#[verifier::external_body]
pub struct ExJson(serde_json::Value);

/// A JSON value. Numbers keep their text. An object holds its members in order; one
/// read by `parse_json` has its keys sorted and holds only the last of repeated keys.
#[derive(Debug)]
pub enum JsonValue {
    Null,
    Bool(bool),
    Number(String),
    Str(String),
    Array(Vec<JsonValue>),
    Object(Vec<(String, JsonValue)>),
}

/// What `serde_json::from_str` makes of a text, as a `JsonValue`; `None` when the text
/// is not JSON.
pub uninterp spec fn json_of_text(s: Seq<char>) -> Option<JsonValue>;

/// Copies a `serde_json::Value` into a `JsonValue`, member by member.
#[verifier::external_body]
fn from_serde(v: serde_json::Value) -> JsonValue {
    match v {
        serde_json::Value::Null => JsonValue::Null,
        serde_json::Value::Bool(b) => JsonValue::Bool(b),
        serde_json::Value::Number(n) => JsonValue::Number(n.to_string()),
        serde_json::Value::String(s) => JsonValue::Str(s),
        serde_json::Value::Array(a) => JsonValue::Array(a.into_iter().map(from_serde).collect()),
        serde_json::Value::Object(m) => JsonValue::Object(
            m.into_iter().map(|(k, v)| (k, from_serde(v))).collect(),
        ),
    }
}

/// Parses a JSON text.
///
/// Relies on `serde_json::from_str::<serde_json::Value>`, a function of the text alone.
#[verifier::external_body]
pub(crate) fn parse_json(s: &str) -> (r: Option<JsonValue>)
    ensures
        r == json_of_text(s@),
{
    serde_json::from_str::<serde_json::Value>(s).ok().map(from_serde)
}

/// Index of the last member named `key`, if any.
pub open spec fn member_index(members: Seq<(String, JsonValue)>, key: Seq<char>) -> Option<int>
    decreases members.len(),
{
    if members.len() == 0 {
        None
    } else if members.last().0@ == key {
        Some(members.len() - 1)
    } else {
        member_index(members.drop_last(), key)
    }
}

proof fn lemma_member_index(members: Seq<(String, JsonValue)>, key: Seq<char>, i: int)
    requires
        0 <= i <= members.len(),
        forall|j: int| i <= j < members.len() ==> members[j].0@ != key,
    ensures
        member_index(members, key) == member_index(members.subrange(0, i), key),
    decreases members.len(),
{
    if i < members.len() {
        assert(members.drop_last().subrange(0, i) =~= members.subrange(0, i));
        lemma_member_index(members.drop_last(), key, i);
    } else {
        assert(members.subrange(0, i) =~= members);
    }
}

/// A found member lies within the object and carries the name looked up.
pub proof fn lemma_member_index_found(members: Seq<(String, JsonValue)>, key: Seq<char>)
    ensures
        member_index(members, key) matches Some(j) ==> 0 <= j < members.len() && members[j].0@
            == key,
    decreases members.len(),
{
    if members.len() > 0 {
        lemma_member_index_found(members.drop_last(), key);
    }
}

/// Replacing a member by one of the same name keeps every lookup's index.
pub proof fn lemma_member_index_update(
    members: Seq<(String, JsonValue)>,
    j: int,
    e: (String, JsonValue),
    key: Seq<char>,
)
    requires
        0 <= j < members.len(),
        e.0@ == members[j].0@,
    ensures
        member_index(members.update(j, e), key) == member_index(members, key),
    decreases members.len(),
{
    let t = members.update(j, e);
    if j == members.len() - 1 {
        assert(t.drop_last() =~= members.drop_last());
    } else {
        assert(t.drop_last() =~= members.drop_last().update(j, e));
        lemma_member_index_update(members.drop_last(), j, e, key);
    }
}

/// The value of the last member named `key`, if any.
pub open spec fn member(members: Seq<(String, JsonValue)>, key: Seq<char>) -> Option<JsonValue> {
    match member_index(members, key) {
        Some(i) => Some(members[i].1),
        None => None,
    }
}

/// Index of the last member named `key`, if any.
pub fn find_member(members: &Vec<(String, JsonValue)>, key: &str) -> (r: Option<usize>)
    ensures
        r matches Some(i) ==> member_index(members@, key@) == Some(i as int) && i < members@.len(),
        r is None ==> member_index(members@, key@) is None,
{
    let k = key.to_owned();
    let mut i: usize = members.len();
    while i > 0
        invariant
            i <= members@.len(),
            k@ == key@,
            forall|j: int| i <= j < members@.len() ==> members@[j].0@ != key@,
        decreases i,
    {
        if members[i - 1].0 == k {
            proof {
                lemma_member_index(members@, key@, i as int);
                assert(members@.subrange(0, i as int).drop_last() =~= members@.subrange(
                    0,
                    i - 1,
                ));
            }
            return Some(i - 1);
        }
        i = i - 1;
    }
    proof {
        lemma_member_index(members@, key@, 0);
    }
    None
}

/// A member read as an optional string, as a typed decoder reads `Option<String>`:
/// `Some(None)` when absent or null, `Some(Some(s))` for a string, `None` (a type
/// error) for anything else.
pub open spec fn optional_string(v: Option<JsonValue>) -> Option<Option<String>> {
    match v {
        None => Some(None),
        Some(JsonValue::Null) => Some(None),
        Some(JsonValue::Str(s)) => Some(Some(s)),
        _ => None,
    }
}

/// Reads the member `key` of `members` as an optional string (see `optional_string`).
pub fn string_member(members: &Vec<(String, JsonValue)>, key: &str) -> (r: Option<Option<String>>)
    ensures
        r == optional_string(member(members@, key@)),
{
    match find_member(members, key) {
        None => Some(None),
        Some(i) => {
            match &members[i].1 {
                JsonValue::Null => Some(None),
                JsonValue::Str(s) => Some(Some(s.clone())),
                _ => None,
            }
        },
    }
}

} // verus!
