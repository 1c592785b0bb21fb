use vstd::prelude::*;

use crate::json::{JsonValue, find_member, member_index};

verus! {

/// A piece of message content.
#[derive(Debug, Clone)]
pub enum ContentItem {
    InputText { text: String },
    OutputText { text: String },
}

/// One item of a conversation as sent to the Responses API. Only the parts that
/// request patching reads are kept.
#[derive(Debug, Clone)]
pub enum ResponseItem {
    Message { id: Option<String>, role: String, content: Vec<ContentItem> },
    Reasoning { id: String, encrypted_content: Option<String> },
    WebSearchCall { id: Option<String> },
    FunctionCall { id: Option<String>, name: String, arguments: String, call_id: String },
    LocalShellCall { id: Option<String>, call_id: Option<String> },
    CustomToolCall { id: Option<String>, name: String, input: String, call_id: String },
    FunctionCallOutput { call_id: String, output: String },
    Other,
}

/// The ID that an item carries, if any.
pub open spec fn item_id(item: ResponseItem) -> Option<Seq<char>> {
    match item {
        ResponseItem::Reasoning { id, .. } => Some(id@),
        ResponseItem::Message { id: Some(id), .. } => Some(id@),
        ResponseItem::WebSearchCall { id: Some(id) } => Some(id@),
        ResponseItem::FunctionCall { id: Some(id), .. } => Some(id@),
        ResponseItem::LocalShellCall { id: Some(id), .. } => Some(id@),
        ResponseItem::CustomToolCall { id: Some(id), .. } => Some(id@),
        _ => None,
    }
}

/// The ID that an item carries, if any.
fn extract_item_id(item: &ResponseItem) -> (r: Option<&String>)
    ensures
        match r {
            Some(s) => item_id(*item) == Some(s@),
            None => item_id(*item) is None,
        },
{
    match item {
        ResponseItem::Reasoning { id, .. } => Some(id),
        ResponseItem::Message { id: Some(id), .. } => Some(id),
        ResponseItem::WebSearchCall { id: Some(id) } => Some(id),
        ResponseItem::FunctionCall { id: Some(id), .. } => Some(id),
        ResponseItem::LocalShellCall { id: Some(id), .. } => Some(id),
        ResponseItem::CustomToolCall { id: Some(id), .. } => Some(id),
        _ => None,
    }
}

/// The `input` array of a request payload, if the payload is an object that has one.
pub open spec fn input_items(payload: JsonValue) -> Option<Seq<JsonValue>> {
    match payload {
        JsonValue::Object(members) => match member_index(members@, "input"@) {
            Some(i) => match members@[i].1 {
                JsonValue::Array(items) => Some(items@),
                _ => None,
            },
            None => None,
        },
        _ => None,
    }
}

/// `after` is the object members `before` with the member `id` set to the text `id`:
/// an existing (last) `id` member gets the new value in place, else one is appended.
pub open spec fn with_id_member(
    before: Seq<(String, JsonValue)>,
    after: Seq<(String, JsonValue)>,
    id: Seq<char>,
) -> bool {
    match member_index(before, "id"@) {
        Some(j) => {
            &&& after.len() == before.len()
            &&& forall|k: int| 0 <= k < before.len() && k != j ==> after[k] == before[k]
            &&& after[j].0 == before[j].0
            &&& after[j].1 matches JsonValue::Str(s) && s@ == id
        },
        None => {
            &&& after.len() == before.len() + 1
            &&& forall|k: int| 0 <= k < before.len() ==> after[k] == before[k]
            &&& after.last().0@ == "id"@
            &&& after.last().1 matches JsonValue::Str(s) && s@ == id
        },
    }
}

/// The object members already hold the ID `id` as their (last) `id` member.
pub open spec fn holds_id(members: Seq<(String, JsonValue)>, id: Seq<char>) -> bool {
    match member_index(members, "id"@) {
        Some(j) => members[j].1 matches JsonValue::Str(s) && s@ == id,
        None => false,
    }
}

/// `after` is the input element `before` patched with `id`: an object gets the ID when
/// there is a non-empty one (one that already holds it stays as it is); anything else
/// stays as it was.
pub open spec fn patched(before: JsonValue, after: JsonValue, id: Option<Seq<char>>) -> bool {
    match (before, id) {
        (JsonValue::Object(m), Some(id)) => if id.len() > 0 && !holds_id(m@, id) {
            after matches JsonValue::Object(m2) && with_id_member(m@, m2@, id)
        } else {
            after == before
        },
        _ => after == before,
    }
}

/// Patching is idempotent: patching an already patched element with the same ID
/// leaves it exactly as it is.
pub proof fn lemma_patch_idempotent(a: JsonValue, b: JsonValue, c: JsonValue, id: Option<Seq<char>>)
    requires
        patched(a, b, id),
        patched(b, c, id),
    ensures
        c == b,
{
    match (a, id) {
        (JsonValue::Object(m1), Some(t)) => {
            if t.len() > 0 && !holds_id(m1@, t) {
                let m2 = b->Object_0;
                crate::json::lemma_member_index_found(m1@, "id"@);
                match member_index(m1@, "id"@) {
                    Some(j) => {
                        assert(m2@ =~= m1@.update(j, m2@[j]));
                        crate::json::lemma_member_index_update(m1@, j, m2@[j], "id"@);
                        assert(member_index(m2@, "id"@) == Some(j));
                    },
                    None => {
                        assert(m2@.drop_last() =~= m1@);
                        assert(member_index(m2@, "id"@) == Some(m2@.len() - 1));
                    },
                }
                assert(holds_id(m2@, t));
            }
        },
        _ => {},
    }
}

/// Patching a payload's input twice with the same items gives the same input as
/// patching it once.
pub proof fn lemma_attach_idempotent(
    before: Seq<JsonValue>,
    once: Seq<JsonValue>,
    twice: Seq<JsonValue>,
    items: Seq<ResponseItem>,
)
    requires
        once.len() == before.len() == items.len(),
        twice.len() == once.len(),
        forall|i: int| 0 <= i < before.len() ==> patched(#[trigger] before[i], once[i], item_id(items[i])),
        forall|i: int| 0 <= i < once.len() ==> patched(#[trigger] once[i], twice[i], item_id(items[i])),
    ensures
        twice == once,
{
    assert forall|i: int| 0 <= i < once.len() implies twice[i] == once[i] by {
        lemma_patch_idempotent(before[i], once[i], twice[i], item_id(items[i]));
    }
    assert(twice =~= once);
}

/// Sets the member `id` of an object to `id`.
fn set_id(members: &mut Vec<(String, JsonValue)>, id: &String)
    ensures
        holds_id(old(members)@, id@) ==> *final(members) == *old(members),
        !holds_id(old(members)@, id@) ==> with_id_member(old(members)@, final(members)@, id@),
{
    match find_member(members, "id") {
        Some(j) => {
            let already = match &members[j].1 {
                JsonValue::Str(s) => *s == *id,
                _ => false,
            };
            if already {
                return;
            }
            let key = members[j].0.clone();
            members.set(j, (key, JsonValue::Str(id.clone())));
        },
        None => {
            proof {
                reveal_strlit("id");
            }
            members.push((String::from_str("id"), JsonValue::Str(id.clone())));
        },
    }
}

/// Patching the element `e` with `id` would change it: an object that does not yet
/// hold a non-empty `id`.
pub open spec fn patch_changes(e: JsonValue, id: Option<Seq<char>>) -> bool {
    match (e, id) {
        (JsonValue::Object(m), Some(id)) => id.len() > 0 && !holds_id(m@, id),
        _ => false,
    }
}

/// A patched element needs no further patching with the same ID.
pub proof fn lemma_patched_is_settled(a: JsonValue, b: JsonValue, id: Option<Seq<char>>)
    requires
        patched(a, b, id),
    ensures
        !patch_changes(b, id),
{
    if patch_changes(b, id) {
        match (a, id) {
            (JsonValue::Object(m1), Some(t)) => {
                if t.len() > 0 && !holds_id(m1@, t) {
                    let m2 = b->Object_0;
                    crate::json::lemma_member_index_found(m1@, "id"@);
                    match member_index(m1@, "id"@) {
                        Some(j) => {
                            assert(m2@ =~= m1@.update(j, m2@[j]));
                            crate::json::lemma_member_index_update(m1@, j, m2@[j], "id"@);
                        },
                        None => {
                            assert(m2@.drop_last() =~= m1@);
                        },
                    }
                }
            },
            _ => {},
        }
    }
}

/// Patching twice with the same items leaves the payload exactly as patching once:
/// after the first patch no element of `input` needs patching, so the second call
/// returns the payload unchanged (see `attach_item_ids_to_json`).
pub proof fn lemma_second_patch_changes_nothing(
    before: Seq<JsonValue>,
    once: Seq<JsonValue>,
    items: Seq<ResponseItem>,
)
    requires
        once.len() == before.len() == items.len(),
        forall|i: int| 0 <= i < before.len() ==> patched(#[trigger] before[i], once[i], item_id(items[i])),
    ensures
        forall|i: int| 0 <= i < once.len() ==> !#[trigger] patch_changes(once[i], item_id(items[i])),
{
    assert forall|i: int| 0 <= i < once.len() implies !#[trigger] patch_changes(
        once[i],
        item_id(items[i]),
    ) by {
        lemma_patched_is_settled(before[i], once[i], item_id(items[i]));
    }
}

/// `after` is the object `before` with only the value of its `input` member replaced.
pub open spec fn other_members_kept(before: JsonValue, after: JsonValue) -> bool {
    match (before, after) {
        (JsonValue::Object(m1), JsonValue::Object(m2)) => match member_index(m1@, "input"@) {
            Some(j) => {
                &&& m2@.len() == m1@.len()
                &&& m2@[j].0 == m1@[j].0
                &&& forall|k: int| 0 <= k < m1@.len() && k != j ==> m2@[k] == m1@[k]
            },
            None => false,
        },
        _ => false,
    }
}

/// Whether patching would change any element of `elements`.
fn any_patch_changes(elements: &Vec<JsonValue>, source_items: &[ResponseItem]) -> (r: bool)
    requires
        elements@.len() == source_items@.len(),
    ensures
        r == exists|i: int|
            0 <= i < elements@.len() && #[trigger] patch_changes(elements@[i], item_id(source_items@[i])),
{
    let mut i: usize = 0;
    while i < elements.len()
        invariant
            i <= elements@.len() == source_items@.len(),
            forall|k: int| 0 <= k < i ==> !#[trigger] patch_changes(elements@[k], item_id(source_items@[k])),
        decreases elements@.len() - i,
    {
        if let Some(id) = extract_item_id(&source_items[i]) {
            if id.as_str().unicode_len() > 0 {
                if let JsonValue::Object(members) = &elements[i] {
                    let already = match find_member(members, "id") {
                        Some(j) => match &members[j].1 {
                            JsonValue::Str(s) => *s == *id,
                            _ => false,
                        },
                        None => false,
                    };
                    if !already {
                        proof {
                            assert(patch_changes(elements@[i as int], item_id(source_items@[i as int])));
                        }
                        return true;
                    }
                }
            }
        }
        i = i + 1;
    }
    false
}

/// Writes each item's ID into the matching element of the payload's `input` array.
///
/// Elements and items correspond one to one, in order; an element is an object that
/// receives `"id"` when its item carries a non-empty ID. A payload without an `input`
/// array is left as it is.
pub fn attach_item_ids_to_json(payload: &mut JsonValue, source_items: &[ResponseItem])
    requires
        input_items(*old(payload)) matches Some(items) ==> items.len() == source_items@.len(),
    ensures
        input_items(*old(payload)) is None ==> *final(payload) == *old(payload),
        input_items(*old(payload)) matches Some(before) ==> (input_items(*final(payload)) matches Some(
            after,
        ) && after.len() == before.len() && forall|i: int|
            0 <= i < before.len() ==> patched(
                #[trigger] before[i],
                after[i],
                item_id(source_items@[i]),
            )),
        input_items(*old(payload)) matches Some(before) ==> other_members_kept(
            *old(payload),
            *final(payload),
        ),
        input_items(*old(payload)) matches Some(before) ==> ((forall|i: int|
            0 <= i < before.len() ==> !#[trigger] patch_changes(before[i], item_id(source_items@[i])))
            ==> *final(payload) == *old(payload)),
{
    proof {
        reveal_strlit("input");
    }
    let idx = match payload {
        JsonValue::Object(members) => find_member(members, "input"),
        _ => None,
    };
    let j = match idx {
        Some(j) => j,
        None => return,
    };
    match payload {
        JsonValue::Object(members) => {
            let is_array = match &members[j].1 {
                JsonValue::Array(_) => true,
                _ => false,
            };
            if !is_array {
                return;
            }
            let any = match &members[j].1 {
                JsonValue::Array(items) => any_patch_changes(items, source_items),
                _ => false,
            };
            if !any {
                proof {
                    let before = input_items(*old(payload))->0;
                    assert forall|i: int| 0 <= i < before.len() implies patched(
                        #[trigger] before[i],
                        before[i],
                        item_id(source_items@[i]),
                    ) by {
                        assert(!patch_changes(before[i], item_id(source_items@[i])));
                    }
                }
                return;
            }
            let ghost old_members = members@;
            let mut entry = members.remove(j);
            match &mut entry.1 {
                JsonValue::Array(items) => {
                    patch_items(items, source_items);
                },
                _ => {},
            }
            members.insert(j, entry);
            proof {
                assert(members@ =~= old_members.update(j as int, entry));
                crate::json::lemma_member_index_update(old_members, j as int, entry, "input"@);
            }
        },
        _ => {},
    }
}

fn patch_items(items: &mut Vec<JsonValue>, source_items: &[ResponseItem])
    requires
        old(items)@.len() == source_items@.len(),
    ensures
        final(items)@.len() == old(items)@.len(),
        forall|i: int|
            0 <= i < old(items)@.len() ==> patched(
                #[trigger] old(items)@[i],
                final(items)@[i],
                item_id(source_items@[i]),
            ),
{
    let ghost before = items@;
    let mut i: usize = 0;
    while i < items.len()
        invariant
            items@.len() == before.len() == source_items@.len(),
            i <= items@.len(),
            forall|k: int| 0 <= k < i ==> patched(#[trigger] before[k], items@[k], item_id(source_items@[k])),
            forall|k: int| i <= k < items@.len() ==> items@[k] == before[k],
        decreases items@.len() - i,
    {
        match extract_item_id(&source_items[i]) {
            Some(id) => {
                if id.as_str().unicode_len() > 0 {
                    let mut element = items.remove(i);
                    match &mut element {
                        JsonValue::Object(members) => {
                            set_id(members, id);
                        },
                        _ => {},
                    }
                    items.insert(i, element);
                }
            },
            None => {},
        }
        i = i + 1;
    }
}

} // verus!
