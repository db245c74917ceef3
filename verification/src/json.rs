//! JSON objects, as far as the library reads and writes them.
use vstd::prelude::*;

use crate::json_text::json_text;
use crate::text::same;

verus! {

/// A member of a JSON object.
#[derive(Debug)]
pub enum JsonValue {
    Bool(bool),
    /// A number that is an integer in the range of `i64`.
    Int(i64),
    Text(String),
    /// Anything else: `null`, another number, an array or an object. What is
    /// inside is not held.
    Other,
}

/// A [`JsonValue`], with its text as a sequence of characters.
pub enum JsonView {
    Bool(bool),
    Int(i64),
    Text(Seq<char>),
    Other,
}

/// A JSON object. Where a key is set twice, the later value counts.
#[derive(Debug)]
pub struct JsonObject {
    members: Vec<(String, JsonValue)>,
}

impl View for JsonValue {
    type V = JsonView;

    open spec fn view(&self) -> JsonView {
        match self {
            JsonValue::Bool(value) => JsonView::Bool(*value),
            JsonValue::Int(value) => JsonView::Int(*value),
            JsonValue::Text(value) => JsonView::Text(value@),
            JsonValue::Other => JsonView::Other,
        }
    }
}

/// The members that a list of settings leaves, where later ones count.
spec fn members_of(list: Seq<(String, JsonValue)>) -> Map<Seq<char>, JsonView>
    decreases list.len(),
{
    if list.len() == 0 {
        Map::empty()
    } else {
        members_of(list.drop_last()).insert(list.last().0@, list.last().1@)
    }
}

impl View for JsonObject {
    type V = Map<Seq<char>, JsonView>;

    closed spec fn view(&self) -> Map<Seq<char>, JsonView> {
        members_of(self.members@)
    }
}

/// The member `key`, if it is there.
pub open spec fn member(object: Map<Seq<char>, JsonView>, key: Seq<char>) -> Option<JsonView> {
    if object.contains_key(key) {
        Some(object[key])
    } else {
        None
    }
}

/// The text of a member that is there and is a text.
pub open spec fn as_text(value: Option<JsonView>) -> Option<Seq<char>> {
    match value {
        Some(JsonView::Text(text)) => Some(text),
        _ => None,
    }
}

/// The number of a member that is there and is an integer.
pub open spec fn as_int(value: Option<JsonView>) -> Option<i64> {
    match value {
        Some(JsonView::Int(number)) => Some(number),
        _ => None,
    }
}

/// `first` if it is there, else `second`.
pub open spec fn or_else(first: Option<JsonView>, second: Option<JsonView>) -> Option<JsonView> {
    match first {
        Some(value) => Some(value),
        None => second,
    }
}

/// Whether every member is held whole, so that the object can be written.
pub open spec fn writable(object: Map<Seq<char>, JsonView>) -> bool {
    forall|key: Seq<char>| #[trigger] object.contains_key(key) ==> object[key] !is Other
}

impl JsonObject {
    /// The object without members.
    pub fn new() -> (object: JsonObject)
        ensures
            object@ == Map::<Seq<char>, JsonView>::empty(),
    {
        JsonObject { members: Vec::new() }
    }

    /// Sets the member `key`.
    pub fn set(&mut self, key: &str, value: JsonValue)
        ensures
            final(self)@ == old(self)@.insert(key@, value@),
    {
        self.members.push((key.to_string(), value));
        assert(self.members@.drop_last() =~= old(self).members@);
    }

    /// The member `key`, if it is there.
    pub fn get(&self, key: &str) -> (value: Option<&JsonValue>)
        ensures
            match value {
                Some(found) => member(self@, key@) == Some(found@),
                None => member(self@, key@) is None,
            },
    {
        let mut i: usize = self.members.len();
        assert(self.members@.take(i as int) =~= self.members@);
        while i > 0
            invariant
                i <= self.members.len(),
                member(self@, key@) == member(members_of(self.members@.take(i as int)), key@),
            decreases i,
        {
            let ghost list = self.members@.take(i as int);
            assert(list.drop_last() =~= self.members@.take(i - 1));
            i = i - 1;
            if same(self.members[i].0.as_str(), key) {
                return Some(&self.members[i].1);
            }
        }
        None
    }

    /// The text of the member `key`, if it is there and is a text.
    pub fn get_text(&self, key: &str) -> (text: Option<&str>)
        ensures
            match text {
                Some(found) => as_text(member(self@, key@)) == Some(found@),
                None => as_text(member(self@, key@)) is None,
            },
    {
        text_of(self.get(key))
    }

    /// The number of the member `key`, if it is there and is an integer.
    pub fn get_int(&self, key: &str) -> (number: Option<i64>)
        ensures
            number == as_int(member(self@, key@)),
    {
        match self.get(key) {
            Some(JsonValue::Int(number)) => Some(*number),
            _ => None,
        }
    }
}

/// The text of a member that is there and is a text.
pub(crate) fn text_of(value: Option<&JsonValue>) -> (text: Option<&str>)
    ensures
        match text {
            Some(found) => value is Some && as_text(Some(value->0@)) == Some(found@),
            None => value is Some ==> as_text(Some(value->0@)) is None,
        },
{
    match value {
        Some(JsonValue::Text(text)) => Some(text.as_str()),
        _ => None,
    }
}

/// The error of a text that is no JSON.
#[verifier::external_type_specification]
#[verifier::external_body]
pub struct ExJsonError(serde_json::Error);

/// What `serde_json::from_slice` reads in a text: nothing if it is no JSON;
/// else the members of the object that it is, by what `Value::as_bool`,
/// `Value::as_i64` and `Value::as_str` make of each; no members if it is JSON
/// but no object.
pub uninterp spec fn json_members(text: Seq<u8>) -> Option<Map<Seq<char>, JsonView>>;

/// `serde_json::to_vec` on an object that holds booleans, integers and texts.
/// It does not fail on those. It writes the members in the order of their keys
/// (a `serde_json::Map` is ordered), without white space, with quotes, backslashes
/// and control characters escaped and every other character as it is; and what
/// it writes reads back as the same members.
#[verifier::external_body]
pub(crate) fn json_to_vec(object: &JsonObject) -> (text: Result<Vec<u8>, serde_json::Error>)
    requires
        writable(object@),
    ensures
        text is Ok,
        text->Ok_0@ == json_text(object@),
        json_members(text->Ok_0@) == Some(object@),
{
    let mut map = serde_json::Map::new();
    for (key, value) in object.members.iter() {
        map.insert(key.clone(), match value {
            JsonValue::Bool(value) => serde_json::Value::from(*value),
            JsonValue::Int(value) => serde_json::Value::from(*value),
            JsonValue::Text(value) => serde_json::Value::from(value.as_str()),
            JsonValue::Other => serde_json::Value::Null,
        });
    }
    serde_json::to_vec(&serde_json::Value::Object(map))
}

/// A letter that no JSON begins with: any but those of `false`, `null` and `true`.
pub open spec fn begins_no_json(byte: u8) -> bool {
    (65 <= byte <= 90 || 97 <= byte <= 122) && byte != 102 && byte != 110 && byte != 116
}

/// `serde_json::from_slice` into a `serde_json::Value`, with the members of an
/// object taken by what the library reads of them. It reads the JSON of an
/// object as that object, and fails on a text that begins with a letter that
/// no JSON begins with.
#[verifier::external_body]
pub(crate) fn json_from_slice(text: &[u8]) -> (object: Result<JsonObject, serde_json::Error>)
    ensures
        match object {
            Ok(found) => json_members(text@) == Some(found@),
            Err(_) => json_members(text@) is None,
        },
        forall|written: Map<Seq<char>, JsonView>|
            written.dom().finite() && writable(written) && text@ == #[trigger] json_text(written)
                ==> object is Ok && object->Ok_0@ == written,
        text@.len() > 0 && begins_no_json(text@[0]) ==> object is Err,
{
    let mut members: Vec<(String, JsonValue)> = Vec::new();
    if let serde_json::Value::Object(map) = serde_json::from_slice(text)? {
        for (key, value) in map {
            members.push((key, match value {
                serde_json::Value::Bool(value) => JsonValue::Bool(value),
                serde_json::Value::Number(value) => value.as_i64().map_or(JsonValue::Other, JsonValue::Int),
                serde_json::Value::String(value) => JsonValue::Text(value),
                _ => JsonValue::Other,
            }));
        }
    }
    Ok(JsonObject { members })
}

/// A member that is set is there with what it was set to, and setting one member
/// leaves every other as it was. An object without settings has no members.
pub proof fn law_member_is_what_was_set(
    object: Map<Seq<char>, JsonView>,
    key: Seq<char>,
    value: JsonView,
    other: Seq<char>,
)
    ensures
        member(object.insert(key, value), key) == Some(value),
        other != key ==> member(object.insert(key, value), other) == member(object, other),
        member(Map::empty(), key) is None,
{
}

/// A member is read as a text if it is one, as an integer if it is one, and as
/// nothing else.
pub proof fn law_members_are_read_by_their_kind(text: Seq<char>, number: i64, flag: bool)
    ensures
        as_text(Some(JsonView::Text(text))) == Some(text),
        as_int(Some(JsonView::Int(number))) == Some(number),
        as_text(Some(JsonView::Int(number))) is None,
        as_text(Some(JsonView::Bool(flag))) is None,
        as_text(Some(JsonView::Other)) is None,
        as_text(None) is None,
        as_int(Some(JsonView::Text(text))) is None,
        as_int(Some(JsonView::Bool(flag))) is None,
        as_int(Some(JsonView::Other)) is None,
        as_int(None) is None,
{
}

/// The second of two members counts only where the first is not there, whatever
/// the first holds.
pub proof fn law_second_member_is_a_fallback(first: JsonView, second: Option<JsonView>)
    ensures
        or_else(Some(first), second) == Some(first),
        or_else(None, second) == second,
{
}

/// A value is seen as what it is.
pub proof fn law_value_is_seen_as_it_is(flag: bool, number: i64, text: String)
    ensures
        JsonValue::Bool(flag)@ == JsonView::Bool(flag),
        JsonValue::Int(number)@ == JsonView::Int(number),
        JsonValue::Text(text)@ == JsonView::Text(text@),
        JsonValue::Other@ == JsonView::Other,
{
}

} // verus!
