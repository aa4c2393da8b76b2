//! The document model: a parsed tree of JSON values.

use crate::number::Number;
use crate::text::same_text;
use vstd::prelude::*;

verus! {

/// The mathematical content of a [`Value`]. A number is its exact value in
/// units of two to the power -1074; an object is the sequence of its
/// members, each a name and a value.
pub enum Json {
    Null,
    Bool(bool),
    Number(int),
    String(Seq<char>),
    Array(Seq<Json>),
    Object(Seq<(Seq<char>, Json)>),
}

/// The value of the first member of `members` that is called `name`.
pub open spec fn first_named(members: Seq<(Seq<char>, Json)>, name: Seq<char>) -> Option<Json>
    decreases members.len(),
{
    if members.len() == 0 {
        None
    } else if members[0].0 == name {
        Some(members[0].1)
    } else {
        first_named(members.drop_first(), name)
    }
}

impl Json {
    /// The member called `name` of an object; `None` for a missing member
    /// and for anything that is not an object.
    pub open spec fn member(self, name: Seq<char>) -> Option<Json> {
        match self {
            Json::Object(members) => first_named(members, name),
            _ => None,
        }
    }
}

/// A parsed JSON value.
#[derive(Debug)]
pub enum Value {
    Null,
    Bool(bool),
    Number(Number),
    String(String),
    Array(Vec<Value>),
    /// The members in document order. Where a name occurs twice, the first
    /// member of that name is the one that is found.
    Object(Vec<(String, Value)>),
}

/// The mathematical content of `value`.
pub open spec fn json_of(value: Value) -> Json
    decreases value,
{
    match value {
        Value::Null => Json::Null,
        Value::Bool(b) => Json::Bool(b),
        Value::Number(n) => Json::Number(n@),
        Value::String(s) => Json::String(s@),
        Value::Array(items) => Json::Array(
            Seq::new(
                items.len() as nat,
                |i: int|
                    if 0 <= i < items.len() {
                        json_of(items[i])
                    } else {
                        Json::Null
                    },
            ),
        ),
        Value::Object(members) => Json::Object(
            Seq::new(
                members.len() as nat,
                |i: int|
                    if 0 <= i < members.len() {
                        (members[i].0@, json_of(members[i].1))
                    } else {
                        (Seq::empty(), Json::Null)
                    },
            ),
        ),
    }
}

impl View for Value {
    type V = Json;

    open spec fn view(&self) -> Json {
        json_of(*self)
    }
}

impl Value {
    /// The member called `name`, where this value is an object that has one.
    pub fn find(&self, name: &str) -> (found: Option<&Value>)
        ensures
            match found {
                Some(value) => self@.member(name@) == Some(value@),
                None => self@.member(name@) is None,
            },
    {
        match self {
            Value::Object(members) => {
                let ghost all = self@->Object_0;
                proof {
                    assert(all.skip(0) == all);
                }
                let mut i: usize = 0;
                while i < members.len()
                    invariant
                        i <= members.len(),
                        self@ == Json::Object(all),
                        all.len() == members.len(),
                        forall|j: int|
                            0 <= j < members.len() ==> all[j] == (
                                members[j].0@,
                                (#[trigger] members[j]).1@,
                            ),
                        first_named(all, name@) == first_named(all.skip(i as int), name@),
                    decreases members.len() - i,
                {
                    proof {
                        assert(all.skip(i as int).drop_first() == all.skip(i + 1));
                    }
                    if same_text(members[i].0.as_str(), name) {
                        return Some(&members[i].1);
                    }
                    i += 1;
                }
                None
            },
            _ => None,
        }
    }

    /// Whether this value is an object.
    pub fn is_object(&self) -> (holds: bool)
        ensures
            holds == (self@ is Object),
    {
        match self {
            Value::Object(_) => true,
            _ => false,
        }
    }

    /// Whether this value is a number.
    pub fn is_number(&self) -> (holds: bool)
        ensures
            holds == (self@ is Number),
    {
        match self {
            Value::Number(_) => true,
            _ => false,
        }
    }

    /// The number that this value is, if it is one.
    pub fn as_number(&self) -> (number: Option<Number>)
        ensures
            match number {
                Some(n) => self@ == Json::Number(n@),
                None => !(self@ is Number),
            },
    {
        match self {
            Value::Number(n) => Some(*n),
            _ => None,
        }
    }

    /// The boolean that this value is, if it is one.
    pub fn as_boolean(&self) -> (boolean: Option<bool>)
        ensures
            match boolean {
                Some(b) => self@ == Json::Bool(b),
                None => !(self@ is Bool),
            },
    {
        match self {
            Value::Bool(b) => Some(*b),
            _ => None,
        }
    }

    /// The text that this value is, if it is a string.
    pub fn as_str(&self) -> (text: Option<&str>)
        ensures
            match text {
                Some(s) => self@ == Json::String(s@),
                None => !(self@ is String),
            },
    {
        match self {
            Value::String(s) => Some(s.as_str()),
            _ => None,
        }
    }
}

} // verus!
