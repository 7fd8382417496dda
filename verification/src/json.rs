//! JSON documents as trees.

use vstd::prelude::*;

verus! {

/// A number: its value as an unsigned and as a signed integer, where it is one,
/// and the bit pattern of its binary64 value.
#[derive(Clone, Copy, Debug, PartialEq, Eq, Structural)]
pub struct JsonNumber {
    pub unsigned: Option<u64>,
    pub signed: Option<i64>,
    pub bits: Option<u64>,
}

#[derive(Debug)]
pub enum Json {
    Null,
    Bool(bool),
    Number(JsonNumber),
    Text(String),
    Array(Vec<Json>),
    Object(Vec<(String, Json)>),
}

/// What a document holds.
pub enum JsonTree {
    Null,
    Bool(bool),
    Number(JsonNumber),
    Text(Seq<char>),
    Array(Seq<JsonTree>),
    Object(Seq<(Seq<char>, JsonTree)>),
}

pub open spec fn tree_of(json: Json) -> JsonTree
    decreases json,
{
    match json {
        Json::Null => JsonTree::Null,
        Json::Bool(value) => JsonTree::Bool(value),
        Json::Number(value) => JsonTree::Number(value),
        Json::Text(value) => JsonTree::Text(value@),
        Json::Array(items) => JsonTree::Array(
            Seq::new(
                items@.len(),
                |i: int|
                    if 0 <= i < items@.len() {
                        tree_of(items@[i])
                    } else {
                        JsonTree::Null
                    },
            ),
        ),
        Json::Object(members) => JsonTree::Object(
            Seq::new(
                members@.len(),
                |i: int|
                    if 0 <= i < members@.len() {
                        (members@[i].0@, tree_of(members@[i].1))
                    } else {
                        (Seq::empty(), JsonTree::Null)
                    },
            ),
        ),
    }
}

/// What the documents of a list hold.
pub open spec fn trees(items: Seq<Json>) -> Seq<JsonTree> {
    Seq::new(items.len(), |i: int| tree_of(items[i]))
}

impl View for Json {
    type V = JsonTree;

    open spec fn view(&self) -> JsonTree {
        tree_of(*self)
    }
}

/// Bytes that may be missing.
pub open spec fn bytes_view(bytes: Option<&[u8]>) -> Option<Seq<u8>> {
    match bytes {
        Some(bytes) => Some(bytes@),
        None => None,
    }
}

/// A `serde_json` document.
#[verifier::external_type_specification]
#[verifier::external_body]
pub struct ExValue(serde_json::Value);

/// What `serde_json::from_slice` makes of bytes: a document, or the message of
/// its error.
pub uninterp spec fn parsed(bytes: Seq<u8>) -> Result<JsonTree, Seq<char>>;

/// Turns a `serde_json::Value` into a document, variant by variant. Nothing is
/// claimed of it on its own.
#[verifier::external_body]
fn document(value: serde_json::Value) -> Json {
    match value {
        serde_json::Value::Null => Json::Null,
        serde_json::Value::Bool(value) => Json::Bool(value),
        serde_json::Value::Number(value) => Json::Number(JsonNumber {
            unsigned: value.as_u64(),
            signed: value.as_i64(),
            bits: value.as_f64().map(|value| value.to_bits()),
        }),
        serde_json::Value::String(value) => Json::Text(value),
        serde_json::Value::Array(items) => Json::Array(items.into_iter().map(document).collect()),
        serde_json::Value::Object(members) => {
            Json::Object(members.into_iter().map(|member| (member.0, document(member.1))).collect())
        },
    }
}

/// Reads a document with `serde_json::from_slice`. The result depends on the
/// bytes alone: the document, or the message of the error.
#[verifier::external_body]
pub(crate) fn parse_json(bytes: &[u8]) -> (result: Result<Json, String>)
    ensures
        match result {
            Ok(json) => parsed(bytes@) == Ok::<JsonTree, Seq<char>>(json@),
            Err(message) => parsed(bytes@) == Err::<JsonTree, Seq<char>>(message@),
        },
{
    match serde_json::from_slice(bytes) {
        Ok(value) => Ok(document(value)),
        Err(error) => Err(error.to_string()),
    }
}

/// What `serde_json::from_slice` makes of bytes when it reads an object: a document
/// that is one, or the message of its error.
pub uninterp spec fn parsed_object(bytes: Seq<u8>) -> Result<JsonTree, Seq<char>>;

/// Reads an object with `serde_json::from_slice`. The result depends on the bytes
/// alone: a document that is an object, or the message of the error.
#[verifier::external_body]
pub(crate) fn parse_object(bytes: &[u8]) -> (result: Result<Json, String>)
    ensures
        match result {
            Ok(json) => parsed_object(bytes@) == Ok::<JsonTree, Seq<char>>(json@) && json@ is Object,
            Err(message) => parsed_object(bytes@) == Err::<JsonTree, Seq<char>>(message@),
        },
{
    match serde_json::from_slice::<serde_json::Map<String, serde_json::Value>>(bytes) {
        Ok(members) => Ok(document(serde_json::Value::Object(members))),
        Err(error) => Err(error.to_string()),
    }
}

/// The value of the first member with a name.
pub open spec fn member_from(members: Seq<(Seq<char>, JsonTree)>, name: Seq<char>, from: int) -> Option<
    JsonTree,
>
    decreases members.len() - from,
{
    if from < 0 || from >= members.len() {
        None
    } else if members[from].0 == name {
        Some(members[from].1)
    } else {
        member_from(members, name, from + 1)
    }
}

impl JsonTree {
    /// The value of a member; none where this is no object.
    pub open spec fn member(self, name: Seq<char>) -> Option<JsonTree> {
        match self {
            JsonTree::Object(members) => member_from(members, name, 0),
            _ => None,
        }
    }

    pub open spec fn text(self) -> Option<Seq<char>> {
        match self {
            JsonTree::Text(value) => Some(value),
            _ => None,
        }
    }

    pub open spec fn items(self) -> Option<Seq<JsonTree>> {
        match self {
            JsonTree::Array(items) => Some(items),
            _ => None,
        }
    }

    pub open spec fn member_items(self, name: Seq<char>) -> Option<Seq<JsonTree>> {
        match self.member(name) {
            Some(value) => value.items(),
            None => None,
        }
    }

    pub open spec fn unsigned(self) -> Option<u64> {
        match self {
            JsonTree::Number(value) => value.unsigned,
            _ => None,
        }
    }

    pub open spec fn boolean(self) -> Option<bool> {
        match self {
            JsonTree::Bool(value) => Some(value),
            _ => None,
        }
    }

    /// The text of a member that is a text.
    pub open spec fn member_text(self, name: Seq<char>) -> Option<Seq<char>> {
        match self.member(name) {
            Some(value) => value.text(),
            None => None,
        }
    }

    pub open spec fn member_unsigned(self, name: Seq<char>) -> Option<u64> {
        match self.member(name) {
            Some(value) => value.unsigned(),
            None => None,
        }
    }

    pub open spec fn member_boolean(self, name: Seq<char>) -> Option<bool> {
        match self.member(name) {
            Some(value) => value.boolean(),
            None => None,
        }
    }
}

/// A member is smaller than its object.
pub proof fn lemma_member_is_smaller(tree: JsonTree, name: Seq<char>)
    ensures
        tree.member(name) matches Some(value) ==> decreases_to!(tree => value),
{
    if let JsonTree::Object(members) = tree {
        lemma_member_from_is_smaller(members, name, 0);
    }
}

proof fn lemma_member_from_is_smaller(
    members: Seq<(Seq<char>, JsonTree)>,
    name: Seq<char>,
    from: int,
)
    ensures
        member_from(members, name, from) matches Some(value) ==> decreases_to!(
            members => value
        ),
    decreases members.len() - from,
{
    if 0 <= from < members.len() {
        if members[from].0 == name {
            assert(decreases_to!(members => members[from]));
            assert(decreases_to!(members[from] => members[from].1));
        } else {
            lemma_member_from_is_smaller(members, name, from + 1);
        }
    }
}

impl Json {
    pub fn get(&self, name: &str) -> (value: Option<&Json>)
        ensures
            match value {
                Some(found) => self@.member(name@) == Some(found@),
                None => self@.member(name@) is None,
            },
            value matches Some(found) ==> decreases_to!(*self => *found),
    {
        match self {
            Json::Object(members) => {
                let ghost views = self@->Object_0;
                let mut i: usize = 0;
                while i < members.len()
                    invariant
                        i <= members@.len(),
                        *self == Json::Object(*members),
                        views == self@->Object_0,
                        views.len() == members@.len(),
                        self@.member(name@) == member_from(views, name@, i as int),
                    decreases members@.len() - i,
                {
                    assert(views[i as int] == (members@[i as int].0@, members@[i as int].1@));
                    if crate::text::same_text(members[i].0.as_str(), name) {
                        proof {
                            assert(decreases_to!(*members => members@));
                            assert(decreases_to!(members@ => members@[i as int]));
                            assert(decreases_to!(members@[i as int] => members@[i as int].1));
                        }
                        return Some(&members[i].1);
                    }
                    i += 1;
                }
                None
            },
            _ => None,
        }
    }

    pub fn as_text(&self) -> (value: Option<&str>)
        ensures
            match value {
                Some(found) => self@.text() == Some(found@),
                None => self@.text() is None,
            },
    {
        match self {
            Json::Text(value) => Some(value.as_str()),
            _ => None,
        }
    }

    pub fn is_object(&self) -> (yes: bool)
        ensures
            yes == (self@ is Object),
    {
        match self {
            Json::Object(_) => true,
            _ => false,
        }
    }

    pub fn as_items(&self) -> (items: Option<&Vec<Json>>)
        ensures
            match items {
                Some(found) => self@.items() == Some(trees(found@)),
                None => self@.items() is None,
            },
    {
        match self {
            Json::Array(items) => {
                assert(self@->Array_0 =~= trees(items@));
                Some(items)
            },
            _ => None,
        }
    }

    pub fn get_items(&self, name: &str) -> (items: Option<&Vec<Json>>)
        ensures
            match items {
                Some(found) => self@.member_items(name@) == Some(trees(found@)),
                None => self@.member_items(name@) is None,
            },
    {
        match self.get(name) {
            Some(value) => value.as_items(),
            None => None,
        }
    }

    pub fn as_unsigned(&self) -> (value: Option<u64>)
        ensures
            value == self@.unsigned(),
    {
        match self {
            Json::Number(value) => value.unsigned,
            _ => None,
        }
    }

    pub fn as_boolean(&self) -> (value: Option<bool>)
        ensures
            value == self@.boolean(),
    {
        match self {
            Json::Bool(value) => Some(*value),
            _ => None,
        }
    }

    pub fn get_text(&self, name: &str) -> (value: Option<&str>)
        ensures
            match value {
                Some(found) => self@.member_text(name@) == Some(found@),
                None => self@.member_text(name@) is None,
            },
    {
        match self.get(name) {
            Some(value) => value.as_text(),
            None => None,
        }
    }

    pub fn get_unsigned(&self, name: &str) -> (value: Option<u64>)
        ensures
            value == self@.member_unsigned(name@),
    {
        match self.get(name) {
            Some(value) => value.as_unsigned(),
            None => None,
        }
    }

    pub fn get_boolean(&self, name: &str) -> (value: Option<bool>)
        ensures
            value == self@.member_boolean(name@),
    {
        match self.get(name) {
            Some(value) => value.as_boolean(),
            None => None,
        }
    }
}

/// A member of an object is the first that has the name.
pub proof fn lemma_first_member_counts(members: Seq<(Seq<char>, JsonTree)>, name: Seq<char>)
    ensures
        match JsonTree::Object(members).member(name) {
            Some(value) => exists|i: int|
                {
                    &&& 0 <= i < members.len()
                    &&& (#[trigger] members[i]).0 == name && members[i].1 == value
                    &&& forall|j: int| 0 <= j < i ==> (#[trigger] members[j]).0 != name
                },
            None => forall|i: int| 0 <= i < members.len() ==> (#[trigger] members[i]).0 != name,
        },
{
    lemma_first_member_from(members, name, 0);
}

proof fn lemma_first_member_from(members: Seq<(Seq<char>, JsonTree)>, name: Seq<char>, from: int)
    requires
        0 <= from <= members.len(),
    ensures
        match member_from(members, name, from) {
            Some(value) => exists|i: int|
                {
                    &&& from <= i < members.len()
                    &&& (#[trigger] members[i]).0 == name && members[i].1 == value
                    &&& forall|j: int| from <= j < i ==> (#[trigger] members[j]).0 != name
                },
            None => forall|i: int| from <= i < members.len() ==> (#[trigger] members[i]).0 != name,
        },
    decreases members.len() - from,
{
    if from < members.len() && members[from].0 != name {
        lemma_first_member_from(members, name, from + 1);
    } else if from < members.len() {
        assert(members[from].0 == name);
    }
}

/// Only texts have a text, only lists items, only booleans a value and only numbers a
/// number, and nothing but an object has members.
pub proof fn lemma_values_are_what_they_are(tree: JsonTree, name: Seq<char>)
    ensures
        tree.text() is Some <==> tree is Text,
        tree matches JsonTree::Text(text) ==> tree.text() == Some(text),
        tree.items() is Some <==> tree is Array,
        tree matches JsonTree::Array(items) ==> tree.items() == Some(items),
        tree.boolean() is Some <==> tree is Bool,
        tree matches JsonTree::Bool(value) ==> tree.boolean() == Some(value),
        tree.unsigned() is Some ==> tree is Number,
        tree matches JsonTree::Number(number) ==> tree.unsigned() == number.unsigned,
        tree.member(name) is Some ==> tree is Object,
        tree.member_text(name) matches Some(text) ==> tree.member(name) == Some(
            JsonTree::Text(text),
        ),
        tree.member_items(name) matches Some(items) ==> tree.member(name) == Some(
            JsonTree::Array(items),
        ),
        tree.member_boolean(name) matches Some(value) ==> tree.member(name) == Some(
            JsonTree::Bool(value),
        ),
{
}

/// What a document says is kept as it is: its values, its lists in their order, and its
/// members in theirs.
pub proof fn lemma_documents_keep_their_shape(json: Json)
    ensures
        json matches Json::Bool(value) ==> json@ == JsonTree::Bool(value),
        json matches Json::Number(value) ==> json@ == JsonTree::Number(value),
        json matches Json::Text(value) ==> json@ == JsonTree::Text(value@),
        json is Null <==> json@ is Null,
        json matches Json::Array(items) ==> (json@ matches JsonTree::Array(shown) && shown.len()
            == items@.len() && forall|i: int| 0 <= i < items@.len() ==> shown[i] == (#[trigger] items@[i])@),
        json matches Json::Object(members) ==> (json@ matches JsonTree::Object(shown) && shown.len()
            == members@.len() && forall|i: int|
            0 <= i < members@.len() ==> shown[i].0 == (#[trigger] members@[i]).0@ && shown[i].1
                == members@[i].1@),
{
}

} // verus!
