//! JSON values as plain data, and the reading of fields out of them.

use vstd::prelude::*;
use crate::error::{ParseError, ParseFailure};

verus! {

/// A JSON value.
///
/// An object keeps its members as a list of name and value; a number keeps
/// the text that writes it.
#[derive(Debug)]
pub enum Json {
    Null,
    Bool(bool),
    Number(String),
    Text(String),
    Array(Vec<Json>),
    Object(Vec<(String, Json)>),
}

/// What a [`Json`] stands for: the same tree over mathematical sequences.
pub enum JsonValue {
    Null,
    Bool(bool),
    Number(Seq<char>),
    Text(Seq<char>),
    Array(Seq<JsonValue>),
    Object(Seq<Member>),
}

/// A member of an object: its name and its value.
pub struct Member {
    pub name: Seq<char>,
    pub value: JsonValue,
}

impl View for Json {
    type V = JsonValue;

    open spec fn view(&self) -> JsonValue
        decreases self,
    {
        match self {
            Json::Null => JsonValue::Null,
            Json::Bool(b) => JsonValue::Bool(*b),
            Json::Number(digits) => JsonValue::Number(digits@),
            Json::Text(text) => JsonValue::Text(text@),
            Json::Array(items) => JsonValue::Array(
                Seq::new(
                    items@.len(),
                    |i: int|
                        if 0 <= i < items@.len() {
                            items@[i]@
                        } else {
                            JsonValue::Null
                        },
                ),
            ),
            Json::Object(members) => JsonValue::Object(
                Seq::new(
                    members@.len(),
                    |i: int|
                        if 0 <= i < members@.len() {
                            Member { name: members@[i].0@, value: members@[i].1@ }
                        } else {
                            Member { name: Seq::empty(), value: JsonValue::Null }
                        },
                ),
            ),
        }
    }
}

/// `serde_json::Value`, as an opaque type: a decoded JSON text on its way
/// into a [`Json`].
#[verifier::external_type_specification]
#[verifier::external_body]
pub struct ExValue(serde_json::Value);

/// `serde_json::Error`, as an opaque type: why a text could not be decoded.
#[verifier::external_type_specification]
#[verifier::external_body]
pub struct ExDecodeError(serde_json::Error);

/// The tree that a JSON text writes, or `None` where the text is not JSON.
pub uninterp spec fn json_text_value(text: Seq<char>) -> Option<JsonValue>;

/// The tree that a decoded value holds. The members of an object stand in
/// the order in which the decoder keeps them.
pub uninterp spec fn value_model(value: serde_json::Value) -> JsonValue;

/// Calls `serde_json::from_str` for a `serde_json::Value`. Trusted: the call
/// fails exactly on the texts that are not JSON, and what it returns depends
/// on the text alone.
#[verifier::external_body]
fn decode(text: &str) -> (decoded: Result<serde_json::Value, serde_json::Error>)
    ensures
        json_text_value(text@) == match decoded {
            Ok(value) => Some(value_model(value)),
            Err(_) => None,
        },
{
    serde_json::from_str::<serde_json::Value>(text)
}

/// Moves a `serde_json::Value` into a [`Json`], variant by variant. Trusted:
/// the tree is the same; a number is kept as the text `to_string` gives for it.
#[verifier::external_body]
fn lift(value: serde_json::Value) -> (json: Json)
    ensures
        json@ == value_model(value),
{
    match value {
        serde_json::Value::Null => Json::Null,
        serde_json::Value::Bool(b) => Json::Bool(b),
        serde_json::Value::Number(n) => Json::Number(n.to_string()),
        serde_json::Value::String(s) => Json::Text(s),
        serde_json::Value::Array(items) => Json::Array(items.into_iter().map(lift).collect()),
        serde_json::Value::Object(members) => Json::Object(
            members.into_iter().map(|(name, value)| (name, lift(value))).collect(),
        ),
    }
}

/// Reads a JSON text.
pub fn parse_json(text: &str) -> (json: Option<Json>)
    ensures
        json_text_value(text@) == match json {
            Some(tree) => Some(tree@),
            None => None,
        },
{
    match decode(text) {
        Ok(value) => Some(lift(value)),
        Err(_) => None,
    }
}

/// One step down into a JSON tree.
#[derive(Clone, Copy, Debug)]
pub enum Hop<'a> {
    /// To the member of an object that has this name.
    Member(&'a str),
    /// To the first item of the array that the member of this name holds.
    FirstOf(&'a str),
}

impl<'a> Hop<'a> {
    /// The name of the member that the step goes through.
    pub open spec fn name(self) -> Seq<char> {
        match self {
            Hop::Member(name) => name@,
            Hop::FirstOf(name) => name@,
        }
    }
}

/// The value of the first member called `name` among `members`.
pub open spec fn lookup(members: Seq<Member>, name: Seq<char>) -> Option<JsonValue>
    decreases members.len(),
{
    if members.len() == 0 {
        None
    } else if members[0].name == name {
        Some(members[0].value)
    } else {
        lookup(members.drop_first(), name)
    }
}

impl JsonValue {
    /// The member called `name`, where this is an object that has one.
    pub open spec fn member(self, name: Seq<char>) -> Option<JsonValue> {
        match self {
            JsonValue::Object(members) => lookup(members, name),
            _ => None,
        }
    }

    /// The first item, where this is an array that has one.
    pub open spec fn first_item(self) -> Option<JsonValue> {
        match self {
            JsonValue::Array(items) if items.len() > 0 => Some(items[0]),
            _ => None,
        }
    }

    /// Where one step leads from this value.
    pub open spec fn hop(self, step: Hop) -> Option<JsonValue> {
        match step {
            Hop::Member(name) => self.member(name@),
            Hop::FirstOf(name) => match self.member(name@) {
                Some(list) => list.first_item(),
                None => None,
            },
        }
    }

    /// Where `path` leads from this value: the value at its end, or the name
    /// of the first step that leads nowhere.
    pub open spec fn follow(self, path: Seq<Hop>) -> Result<JsonValue, ParseFailure>
        decreases path.len(),
    {
        if path.len() == 0 {
            Ok(self)
        } else {
            match self.hop(path[0]) {
                Some(next) => next.follow(path.drop_first()),
                None => Err(ParseFailure::MissingField(path[0].name())),
            }
        }
    }
}

/// What a lookup in a tree gave, over the models of the tree and of the error.
pub open spec fn found_view(found: Result<&Json, ParseError>) -> Result<JsonValue, ParseFailure> {
    match found {
        Ok(value) => Ok(value@),
        Err(e) => Err(e@),
    }
}

impl Json {
    /// The member called `field_name` of an object. Anything that is not an
    /// object has no members.
    pub fn read(&self, field_name: &str) -> (found: Result<&Json, ParseError>)
        ensures
            found_view(found) == match self@.member(field_name@) {
                Some(value) => Ok::<JsonValue, ParseFailure>(value),
                None => Err(ParseFailure::MissingField(field_name@)),
            },
    {
        let name = field_name.to_owned();
        match self {
            Json::Object(members) => {
                let mut i: usize = 0;
                proof {
                    let all = self@->Object_0;
                    assert(all.skip(0) == all);
                }
                while i < members.len()
                    invariant
                        i <= members.len(),
                        name@ == field_name@,
                        self@ matches JsonValue::Object(all) && all.len() == members.len()
                            && lookup(all, name@) == lookup(all.skip(i as int), name@)
                            && forall|k: int|
                            0 <= k < members.len() ==> (#[trigger] all[k]).name == members@[k].0@
                                && all[k].value == members@[k].1@,
                    decreases members.len() - i,
                {
                    let entry = &members[i];
                    proof {
                        let all = self@->Object_0;
                        assert(all.skip(i as int)[0] == all[i as int]);
                        assert(all.skip(i as int).drop_first() == all.skip(i + 1));
                    }
                    if entry.0 == name {
                        return Ok(&entry.1);
                    }
                    i = i + 1;
                }
                Err(ParseError::MissingField(name))
            },
            _ => Err(ParseError::MissingField(name)),
        }
    }

    /// The first item of the array that the member called `field_name` holds.
    /// A member that is no array, or an empty one, counts as missing.
    pub fn first_of(&self, field_name: &str) -> (found: Result<&Json, ParseError>)
        ensures
            found_view(found) == match self@.hop(Hop::FirstOf(field_name)) {
                Some(value) => Ok::<JsonValue, ParseFailure>(value),
                None => Err(ParseFailure::MissingField(field_name@)),
            },
    {
        match self.read(field_name) {
            Ok(Json::Array(items)) => {
                if items.len() > 0 {
                    Ok(&items[0])
                } else {
                    Err(ParseError::MissingField(field_name.to_owned()))
                }
            },
            Ok(_) => Err(ParseError::MissingField(field_name.to_owned())),
            Err(e) => Err(e),
        }
    }

    /// Goes down `path` from this value, step by step, and stops at the first
    /// step that leads nowhere.
    pub fn follow<'j>(&'j self, path: &[Hop<'_>]) -> (found: Result<&'j Json, ParseError>)
        ensures
            found_view(found) == self@.follow(path@),
    {
        let mut at: &'j Json = self;
        let mut i: usize = 0;
        proof {
            assert(path@.skip(0) == path@);
        }
        while i < path.len()
            invariant
                i <= path.len(),
                self@.follow(path@) == at@.follow(path@.skip(i as int)),
            decreases path.len() - i,
        {
            proof {
                assert(path@.skip(i as int)[0] == path@[i as int]);
                assert(path@.skip(i as int).drop_first() == path@.skip(i + 1));
            }
            let next = match path[i] {
                Hop::Member(name) => at.read(name),
                Hop::FirstOf(name) => at.first_of(name),
            };
            match next {
                Ok(value) => {
                    at = value;
                },
                Err(e) => {
                    return Err(e);
                },
            }
            i = i + 1;
        }
        Ok(at)
    }

    /// The text of a string value.
    pub fn as_text(&self) -> (text: Option<&str>)
        ensures
            match text {
                Some(t) => self@ == JsonValue::Text(t@),
                None => !(self@ is Text),
            },
    {
        match self {
            Json::Text(t) => Some(t.as_str()),
            _ => None,
        }
    }
}

} // verus!
