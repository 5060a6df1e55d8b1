//! JSON documents: a tree type of the library's own, its mathematical view,
//! and the calls into `serde_json` that read and write JSON text.

use vstd::prelude::*;
use vstd::string::StringExecFns;

verus! {

#[verifier::external_type_specification]
#[verifier::external_body]
pub struct ExNumber(serde_json::Number);

#[verifier::external_type_specification]
#[verifier::external_body]
pub struct ExValue(serde_json::Value);

#[verifier::external_type_specification]
#[verifier::external_body]
pub struct ExError(serde_json::Error);

/// A JSON document as a mathematical value.
///
/// An object is the sequence of its members in the order in which they are
/// held. Where a key occurs more than once, the last occurrence is the one in
/// effect (see [`key_index`]).
pub enum JsonValue {
    Null,
    Bool(bool),
    Number(serde_json::Number),
    String(Seq<char>),
    Array(Seq<JsonValue>),
    Object(Seq<(Seq<char>, JsonValue)>),
}

/// A JSON document held in memory.
///
/// Numbers are carried through as `serde_json::Number`: the library never
/// looks inside one.
#[derive(Debug, PartialEq, Eq)]
pub enum Json {
    Null,
    Bool(bool),
    Number(serde_json::Number),
    String(String),
    Array(Vec<Json>),
    Object(Vec<(String, Json)>),
}

impl View for Json {
    type V = JsonValue;

    open spec fn view(&self) -> JsonValue
        decreases self,
    {
        match self {
            Json::Null => JsonValue::Null,
            Json::Bool(b) => JsonValue::Bool(*b),
            Json::Number(n) => JsonValue::Number(*n),
            Json::String(s) => JsonValue::String(s@),
            Json::Array(items) => JsonValue::Array(items_view(items@)),
            Json::Object(members) => JsonValue::Object(members_view(members@)),
        }
    }
}

/// The views of the items of an array, in order.
pub open spec fn items_view(items: Seq<Json>) -> Seq<JsonValue>
    decreases items,
{
    if items.len() == 0 {
        Seq::empty()
    } else {
        items_view(items.drop_last()).push(items.last().view())
    }
}

/// The views of the members of an object, in order.
pub open spec fn members_view(members: Seq<(String, Json)>) -> Seq<(Seq<char>, JsonValue)>
    decreases members,
{
    if members.len() == 0 {
        Seq::empty()
    } else {
        members_view(members.drop_last()).push((members.last().0@, members.last().1.view()))
    }
}

/// `items_view` keeps the length and views each item in its place.
pub proof fn lemma_items_view(items: Seq<Json>)
    ensures
        items_view(items).len() == items.len(),
        forall|i: int| 0 <= i < items.len() ==> (#[trigger] items_view(items)[i]) == items[i]@,
    decreases items.len(),
{
    if items.len() > 0 {
        lemma_items_view(items.drop_last());
        assert(items_view(items) == items_view(items.drop_last()).push(items.last()@));
    }
}

/// `members_view` keeps the length and views each member in its place.
pub proof fn lemma_members_view(members: Seq<(String, Json)>)
    ensures
        members_view(members).len() == members.len(),
        forall|i: int|
            0 <= i < members.len() ==> (#[trigger] members_view(members)[i]) == (
                members[i].0@,
                members[i].1@,
            ),
    decreases members.len(),
{
    if members.len() > 0 {
        lemma_members_view(members.drop_last());
        assert(members_view(members) == members_view(members.drop_last()).push(
            (members.last().0@, members.last().1@),
        ));
    }
}

/// Viewing commutes with adding an item at the end.
pub proof fn lemma_items_view_push(items: Seq<Json>, item: Json)
    ensures
        items_view(items.push(item)) == items_view(items).push(item@),
{
    lemma_items_view(items);
    lemma_items_view(items.push(item));
}

/// Viewing commutes with adding a member at the end.
pub proof fn lemma_members_view_push(members: Seq<(String, Json)>, member: (String, Json))
    ensures
        members_view(members.push(member)) == members_view(members).push((member.0@, member.1@)),
{
    lemma_members_view(members);
    lemma_members_view(members.push(member));
    assert(members_view(members.push(member)) =~= members_view(members).push(
        (member.0@, member.1@),
    ));
}

/// What a `serde_json::Value` holds: its tree, with the members of each object
/// in the order in which the value hands them out.
pub uninterp spec fn value_contents(value: serde_json::Value) -> JsonValue;

/// What `serde_json::from_str` makes of a text: the document it holds, or
/// `None` where the text is refused.
pub uninterp spec fn parsed_text(text: Seq<char>) -> Option<JsonValue>;

/// What `serde_json::from_slice` makes of a buffer: the document it holds, or
/// `None` where the buffer is refused.
pub uninterp spec fn parsed_bytes(bytes: Seq<u8>) -> Option<JsonValue>;

/// What a `serde_json::Value` holds once it has been built from a document:
/// its map type keeps one member for each key and decides their order.
pub uninterp spec fn stored(json: JsonValue) -> JsonValue;

/// The text that `serde_json::to_string_pretty` writes for a value with these
/// contents, or `None` where it fails.
pub uninterp spec fn pretty_text(json: JsonValue) -> Option<Seq<char>>;

/// Calls `serde_json::from_str` for a `serde_json::Value`. The contract names
/// the outcome ([`parsed_text`]): the same text always gives the same
/// document, or is always refused.
#[verifier::external_body]
fn parse_str(text: &str) -> (r: Result<serde_json::Value, serde_json::Error>)
    ensures
        r matches Ok(value) ==> parsed_text(text@) == Some(value_contents(value)),
        r is Err ==> parsed_text(text@) is None,
{
    serde_json::from_str::<serde_json::Value>(text)
}

/// Calls `serde_json::from_slice` for a `serde_json::Value`. The contract names
/// the outcome ([`parsed_bytes`]): the same bytes always give the same
/// document, or are always refused.
#[verifier::external_body]
fn parse_slice(bytes: &[u8]) -> (r: Result<serde_json::Value, serde_json::Error>)
    ensures
        r matches Ok(value) ==> parsed_bytes(bytes@) == Some(value_contents(value)),
        r is Err ==> parsed_bytes(bytes@) is None,
{
    serde_json::from_slice::<serde_json::Value>(bytes)
}

/// Takes a `serde_json::Value` apart, variant by variant, into a [`Json`]. The
/// contract says that nothing is lost or reordered: the result's view is what
/// the value held.
#[verifier::external_body]
fn from_value(value: serde_json::Value) -> (json: Json)
    ensures
        json@ == value_contents(value),
{
    match value {
        serde_json::Value::Null => Json::Null,
        serde_json::Value::Bool(b) => Json::Bool(b),
        serde_json::Value::Number(n) => Json::Number(n),
        serde_json::Value::String(s) => Json::String(s),
        serde_json::Value::Array(items) => Json::Array(items.into_iter().map(from_value).collect()),
        serde_json::Value::Object(members) => Json::Object(
            members.into_iter().map(|(key, member)| (key, from_value(member))).collect(),
        ),
    }
}

/// Builds a `serde_json::Value` from a [`Json`], variant by variant; the
/// members of an object are collected into a `serde_json::Map`. The contract
/// names what the value then holds ([`stored`]).
#[verifier::external_body]
fn to_value(json: &Json) -> (value: serde_json::Value)
    ensures
        value_contents(value) == stored(json@),
{
    match json {
        Json::Null => serde_json::Value::Null,
        Json::Bool(b) => serde_json::Value::Bool(*b),
        Json::Number(n) => serde_json::Value::Number(n.clone()),
        Json::String(s) => serde_json::Value::String(s.clone()),
        Json::Array(items) => serde_json::Value::Array(items.iter().map(to_value).collect()),
        Json::Object(members) => serde_json::Value::Object(
            members.iter().map(|member| (member.0.clone(), to_value(&member.1))).collect(),
        ),
    }
}

/// Calls `serde_json::to_string_pretty` on a `serde_json::Value`. The contract
/// names the outcome ([`pretty_text`]) and adds one fact about the text: it is
/// not empty and does not end in a line feed. The pretty formatter writes a
/// line feed only in front of an item, a key or a closing bracket, so the
/// text ends as its value does: in a bracket, a quote, a digit or a letter.
#[verifier::external_body]
fn pretty(value: &serde_json::Value) -> (r: Result<String, serde_json::Error>)
    ensures
        r matches Ok(text) ==> pretty_text(value_contents(*value)) == Some(text@)
            && text@.len() > 0 && text@.last() != '\n',
        r is Err ==> pretty_text(value_contents(*value)) is None,
{
    serde_json::to_string_pretty(value)
}

/// `Clone::clone` of `serde_json::Number`, which is derived there: the copy is
/// the same number.
pub assume_specification[ <serde_json::Number as Clone>::clone ](
    number: &serde_json::Number,
) -> (copy: serde_json::Number)
    ensures
        copy == *number,
;

/// Calls `to_string` on a `serde_json::Error`, which formats its message.
/// Nothing is claimed of the text.
#[verifier::external_body]
fn error_text(error: &serde_json::Error) -> (text: String) {
    error.to_string()
}

/// The index of the last member with the given key, or -1 where no member
/// has it.
pub open spec fn key_index(members: Seq<(Seq<char>, JsonValue)>, key: Seq<char>) -> int
    decreases members.len(),
{
    if members.len() == 0 {
        -1
    } else if members.last().0 == key {
        members.len() - 1
    } else {
        key_index(members.drop_last(), key)
    }
}

impl JsonValue {
    /// The member in effect under `key`, where this is an object that has one.
    pub open spec fn member(self, key: Seq<char>) -> Option<JsonValue> {
        match self {
            JsonValue::Object(members) => if key_index(members, key) >= 0 {
                Some(members[key_index(members, key)].1)
            } else {
                None
            },
            _ => None,
        }
    }
}

/// `key_index` is the index of a member with that key, after which no member
/// has it; it is -1 exactly where no member has the key.
pub proof fn lemma_key_index(members: Seq<(Seq<char>, JsonValue)>, key: Seq<char>)
    ensures
        -1 <= key_index(members, key) < members.len(),
        key_index(members, key) >= 0 ==> members[key_index(members, key)].0 == key,
        forall|j: int|
            key_index(members, key) < j < members.len() ==> (#[trigger] members[j]).0 != key,
    decreases members.len(),
{
    if members.len() > 0 && members.last().0 != key {
        lemma_key_index(members.drop_last(), key);
        assert forall|j: int| key_index(members, key) < j < members.len() implies (
        #[trigger] members[j]).0 != key by {
            if j < members.len() - 1 {
                assert(members.drop_last()[j] == members[j]);
            }
        }
    }
}

impl Json {
    /// Reads a JSON text. The error holds the parser's message.
    pub fn parse(text: &str) -> (r: Result<Json, String>)
        ensures
            r matches Ok(json) ==> parsed_text(text@) == Some(json@),
            r is Err ==> parsed_text(text@) is None,
    {
        match parse_str(text) {
            Ok(value) => Ok(from_value(value)),
            Err(error) => Err(error_text(&error)),
        }
    }

    /// Reads a JSON document from bytes. The error holds the parser's message.
    pub fn parse_bytes(bytes: &[u8]) -> (r: Result<Json, String>)
        ensures
            r matches Ok(json) ==> parsed_bytes(bytes@) == Some(json@),
            r is Err ==> parsed_bytes(bytes@) is None,
    {
        match parse_slice(bytes) {
            Ok(value) => Ok(from_value(value)),
            Err(error) => Err(error_text(&error)),
        }
    }

    /// The member in effect under `key`, where this is an object that has
    /// one.
    pub fn get(&self, key: &str) -> (r: Option<&Json>)
        ensures
            r matches Some(found) ==> self@.member(key@) == Some(found@),
            r is None ==> self@.member(key@) is None,
    {
        match self {
            Json::Object(members) => {
                let wanted = String::from_str(key);
                proof {
                    lemma_members_view(members@);
                }
                match find_member(members, &wanted) {
                    Some(i) => Some(&members[i].1),
                    None => None,
                }
            },
            _ => None,
        }
    }

    /// Writes the document as indented JSON text. The error holds the
    /// serializer's message.
    pub fn to_pretty(&self) -> (r: Result<String, String>)
        ensures
            r matches Ok(text) ==> pretty_text(stored(self@)) == Some(text@) && text@.len() > 0
                && text@.last() != '\n',
            r is Err ==> pretty_text(stored(self@)) is None,
    {
        let value = to_value(self);
        match pretty(&value) {
            Ok(text) => Ok(text),
            Err(error) => Err(error_text(&error)),
        }
    }
}

impl Clone for Json {
    /// A deep copy.
    fn clone(&self) -> (copy: Json)
        ensures
            copy@ == self@,
        decreases self,
    {
        match self {
            Json::Null => Json::Null,
            Json::Bool(b) => Json::Bool(*b),
            Json::Number(n) => Json::Number(n.clone()),
            Json::String(s) => Json::String(s.clone()),
            Json::Array(items) => {
                let mut copies: Vec<Json> = Vec::new();
                let mut i: usize = 0;
                while i < items.len()
                    invariant
                        *self == Json::Array(*items),
                        i <= items.len(),
                        copies@.len() == i,
                        forall|j: int| 0 <= j < i ==> copies@[j]@ == items@[j]@,
                    decreases items.len() - i,
                {
                    proof {
                        assert(self->Array_0 == *items);
                    }
                    copies.push(items[i].clone());
                    i += 1;
                }
                proof {
                    lemma_items_view(copies@);
                    lemma_items_view(items@);
                    assert(items_view(copies@) =~= items_view(items@));
                }
                Json::Array(copies)
            },
            Json::Object(members) => {
                let mut copies: Vec<(String, Json)> = Vec::new();
                let mut i: usize = 0;
                while i < members.len()
                    invariant
                        *self == Json::Object(*members),
                        i <= members.len(),
                        copies@.len() == i,
                        forall|j: int|
                            0 <= j < i ==> copies@[j].0@ == members@[j].0@ && copies@[j].1@
                                == members@[j].1@,
                    decreases members.len() - i,
                {
                    proof {
                        assert(decreases_to!(*self => self->Object_0));
                    }
                    copies.push((members[i].0.clone(), members[i].1.clone()));
                    i += 1;
                }
                proof {
                    lemma_members_view(copies@);
                    lemma_members_view(members@);
                    assert(members_view(copies@) =~= members_view(members@));
                }
                Json::Object(copies)
            },
        }
    }
}

/// The index of the last member of `members` whose key is `key`.
pub fn find_member(members: &Vec<(String, Json)>, key: &String) -> (r: Option<usize>)
    ensures
        r matches Some(i) ==> i < members.len() && i == key_index(members_view(members@), key@),
        r is None ==> key_index(members_view(members@), key@) == -1,
{
    let mut i: usize = members.len();
    proof {
        lemma_members_view(members@);
    }
    assert(members_view(members@).subrange(0, i as int) =~= members_view(members@));
    while i > 0
        invariant
            i <= members.len(),
            key_index(members_view(members@), key@) == key_index(
                members_view(members@).subrange(0, i as int),
                key@,
            ),
        decreases i,
    {
        proof {
            lemma_members_view(members@);
        }
        let ghost prefix = members_view(members@).subrange(0, i as int);
        assert(prefix.drop_last() =~= members_view(members@).subrange(0, i - 1));
        if members[i - 1].0 == *key {
            return Some(i - 1);
        }
        i -= 1;
    }
    None
}

} // verus!
