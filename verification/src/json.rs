use vstd::prelude::*;
use crate::table::{find_entry, lemma_position, lookup, position};

verus! {

/// A JSON value held as plain data.
///
/// An object keeps its members in document order; a number keeps its
/// decimal text.
#[derive(Debug, PartialEq, Eq)]
pub enum Json {
    Null,
    Bool(bool),
    Number(String),
    Text(String),
    Array(Vec<Json>),
    Object(Vec<(String, Json)>),
}

/// What a `Json` value holds.
pub enum JsonV {
    Null,
    Bool(bool),
    Number(Seq<char>),
    Text(Seq<char>),
    Array(Seq<JsonV>),
    Object(Seq<(Seq<char>, JsonV)>),
}

/// What a list of values holds.
pub open spec fn elements_view(list: Seq<Json>) -> Seq<JsonV>
    decreases list,
{
    if list.len() == 0 {
        Seq::empty()
    } else {
        elements_view(list.drop_last()).push(list.last().view())
    }
}

/// What a list of members holds.
pub open spec fn members_view(list: Seq<(String, Json)>) -> Seq<(Seq<char>, JsonV)>
    decreases list,
{
    if list.len() == 0 {
        Seq::empty()
    } else {
        members_view(list.drop_last()).push((list.last().0@, list.last().1.view()))
    }
}

impl Json {
    /// What the value holds.
    pub open spec fn view(self) -> JsonV
        decreases self,
    {
        match self {
            Json::Null => JsonV::Null,
            Json::Bool(b) => JsonV::Bool(b),
            Json::Number(n) => JsonV::Number(n@),
            Json::Text(s) => JsonV::Text(s@),
            Json::Array(v) => JsonV::Array(elements_view(v@)),
            Json::Object(m) => JsonV::Object(members_view(m@)),
        }
    }

    /// The member stored under `key`, when this value is an object that has one.
    pub open spec fn member(self, key: Seq<char>) -> Option<Json> {
        match self {
            Json::Object(members) => lookup(members@, key),
            _ => None,
        }
    }

    /// The text of a string value.
    pub open spec fn text(self) -> Option<Seq<char>> {
        match self {
            Json::Text(s) => Some(s@),
            _ => None,
        }
    }

    /// The truth value of a boolean value.
    pub open spec fn truth(self) -> Option<bool> {
        match self {
            Json::Bool(b) => Some(b),
            _ => None,
        }
    }

    /// The identifier that a value stands for: the decimal text of a
    /// number, or the text of a string.
    pub open spec fn id_text(self) -> Option<Seq<char>> {
        match self {
            Json::Number(n) => Some(n@),
            Json::Text(s) => Some(s@),
            _ => None,
        }
    }

    /// The elements of an array value.
    pub open spec fn elements(self) -> Option<Seq<Json>> {
        match self {
            Json::Array(v) => Some(v@),
            _ => None,
        }
    }

    /// Whether the value is null.
    pub fn is_null(&self) -> (r: bool)
        ensures
            r == (*self is Null),
    {
        match self {
            Json::Null => true,
            _ => false,
        }
    }

    /// The member stored under `key`, when this value is an object that has one.
    pub fn get(&self, key: &str) -> (r: Option<&Json>)
        ensures
            match r {
                Some(found) => self.member(key@) == Some(*found),
                None => self.member(key@) is None,
            },
    {
        match self {
            Json::Object(members) => find_entry(members, key),
            _ => None,
        }
    }

    /// The text of a string value.
    pub fn as_str(&self) -> (r: Option<&str>)
        ensures
            match r {
                Some(t) => self.text() == Some(t@),
                None => self.text() is None,
            },
    {
        match self {
            Json::Text(s) => Some(s.as_str()),
            _ => None,
        }
    }

    /// The elements of an array value.
    pub fn as_array(&self) -> (r: Option<&Vec<Json>>)
        ensures
            match r {
                Some(v) => self.elements() == Some(v@) && *self == Json::Array(*v),
                None => self.elements() is None,
            },
    {
        match self {
            Json::Array(v) => Some(v),
            _ => None,
        }
    }

    /// The truth value of a boolean value.
    pub fn as_bool(&self) -> (r: Option<bool>)
        ensures
            r == self.truth(),
    {
        match self {
            Json::Bool(b) => Some(*b),
            _ => None,
        }
    }

    /// The identifier that a value stands for: the digits of a number, or
    /// the text of a string.
    pub fn id_string(&self) -> (r: Option<String>)
        ensures
            match r {
                Some(t) => self.id_text() == Some(t@),
                None => self.id_text() is None,
            },
    {
        match self {
            Json::Number(n) => Some(n.clone()),
            Json::Text(s) => Some(s.clone()),
            _ => None,
        }
    }
}

/// An object is larger than each of its members.
pub broadcast proof fn lemma_member_decreases(j: Json, key: Seq<char>)
    ensures
        #[trigger] j.member(key) is Some ==> decreases_to!(j => j.member(key)->0),
{
    if let Json::Object(members) = j {
        lemma_position(members@, key, 0);
        if let Some(i) = position(members@, key, 0) {
            assert(decreases_to!(j => members));
            assert(decreases_to!(members => members@));
            assert(decreases_to!(members@ => members@[i]));
            assert(decreases_to!(members@[i] => members@[i].1));
        }
    }
}

/// An array is larger than its elements.
pub broadcast proof fn lemma_elements_decrease(j: Json)
    ensures
        #[trigger] j.elements() is Some ==> decreases_to!(j => j.elements()->0),
{
    if let Json::Array(v) = j {
        assert(decreases_to!(j => v));
        assert(decreases_to!(v => v@));
    }
}

/// A value of `serde_json`, carried through as it is.
#[verifier::external_type_specification]
#[verifier::external_body]
pub struct ExValue(serde_json::Value);

/// The compact JSON text of a value, as `serde_json` writes it.
pub uninterp spec fn compact_text(j: JsonV) -> Seq<char>;

/// The same value as a `serde_json::Value`, built variant by variant; a
/// number whose text `serde_json` does not read becomes null.
#[verifier::external_body]
fn to_outside(j: &Json) -> serde_json::Value {
    match j {
        Json::Null => serde_json::Value::Null,
        Json::Bool(b) => serde_json::Value::Bool(*b),
        Json::Number(t) => t.parse().map(serde_json::Value::Number).unwrap_or(serde_json::Value::Null),
        Json::Text(s) => serde_json::Value::String(s.clone()),
        Json::Array(v) => serde_json::Value::Array(v.iter().map(to_outside).collect()),
        Json::Object(m) => serde_json::Value::Object(
            m.iter().map(|e| (e.0.clone(), to_outside(&e.1))).collect(),
        ),
    }
}

/// The compact JSON text of `j`. Holds `serde_json::Value`'s `to_string`,
/// whose result depends on the value alone.
#[verifier::external_body]
pub(crate) fn dump(j: &Json) -> (s: String)
    ensures
        s@ == compact_text(j.view()),
{
    to_outside(j).to_string()
}

} // verus!
