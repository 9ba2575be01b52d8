//! JSON values, for the parts of a configuration that are kept untyped.

use vstd::prelude::*;
use vstd::string::*;

use crate::strmap::StrMap;

verus! {

pub enum Json {
    Null,
    Bool(bool),
    /// A number, as its text.
    Number(String),
    Text(String),
    Array(Vec<Json>),
    Object(StrMap<Json>),
}

impl Json {
    /// The members, where the value is an object.
    pub open spec fn members(&self) -> Option<StrMap<Json>> {
        match self {
            Json::Object(map) => Some(*map),
            _ => None,
        }
    }

    /// The value of a member, where the value is an object that has it.
    pub open spec fn member(&self, key: Seq<char>) -> Option<Json> {
        match self {
            Json::Object(map) => if map@.contains_key(key) {
                Some(map@[key])
            } else {
                None
            },
            _ => None,
        }
    }

    /// The text, where the value is a string.
    pub open spec fn text(&self) -> Option<Seq<char>> {
        match self {
            Json::Text(s) => Some(s@),
            _ => None,
        }
    }

    /// The text of a member, where it is a string.
    pub open spec fn member_text(&self, key: Seq<char>) -> Option<Seq<char>> {
        match self.member(key) {
            Some(v) => v.text(),
            None => None,
        }
    }

    pub fn as_object(&self) -> (r: Option<&StrMap<Json>>)
        ensures
            match r {
                Some(map) => self.members() == Some(*map),
                None => self.members() is None,
            },
    {
        match self {
            Json::Object(map) => Some(map),
            _ => None,
        }
    }

    pub fn as_str(&self) -> (r: Option<&str>)
        ensures
            r.deep_view() == self.text(),
    {
        match self {
            Json::Text(s) => Some(s.as_str()),
            _ => None,
        }
    }

    pub fn get(&self, key: &str) -> (r: Option<&Json>)
        ensures
            match r {
                Some(v) => self.member(key@) == Some(*v),
                None => self.member(key@) is None,
            },
    {
        match self {
            Json::Object(map) => map.get(key),
            _ => None,
        }
    }

    /// The text of a member, where it is a string.
    pub fn get_str(&self, key: &str) -> (r: Option<&str>)
        ensures
            r.deep_view() == self.member_text(key@),
    {
        match self.get(key) {
            Some(v) => v.as_str(),
            None => None,
        }
    }
}

} // verus!
