//! A JSON document as the feeds deliver it: the values that the price and
//! event logic reads, with lookups that behave as `serde_json::Value`'s
//! `get`, `as_str` and `as_array` do. Object members keep the order in which
//! the parser produced them; keys are unique.

use crate::text::str_eq;
use vstd::prelude::*;

verus! {

/// A parsed JSON value. A number is held as its JSON text.
#[derive(Debug)]
pub enum Json {
    Null,
    Bool(bool),
    Number(String),
    Str(String),
    Array(Vec<Json>),
    Object(Vec<(String, Json)>),
}

/// The value of the first member named `key` among `fields`.
pub open spec fn field_lookup(fields: Seq<(String, Json)>, key: Seq<char>) -> Option<Json>
    decreases fields.len(),
{
    if fields.len() == 0 {
        None
    } else if fields[0].0@ == key {
        Some(fields[0].1)
    } else {
        field_lookup(fields.drop_first(), key)
    }
}

/// The value a reference option points to.
pub open spec fn deref_opt(r: Option<&Json>) -> Option<Json> {
    match r {
        Some(j) => Some(*j),
        None => None,
    }
}

impl Json {
    /// The member named `key` of an object; `None` for any other value.
    pub open spec fn member(self, key: Seq<char>) -> Option<Json> {
        match self {
            Json::Object(fields) => field_lookup(fields@, key),
            _ => None,
        }
    }

    /// The element at position `i` of an array; `None` for any other value.
    pub open spec fn element(self, i: int) -> Option<Json> {
        match self {
            Json::Array(items) => if 0 <= i < items@.len() {
                Some(items@[i])
            } else {
                None
            },
            _ => None,
        }
    }

    /// The text of a string value; `None` for any other value.
    pub open spec fn text(self) -> Option<Seq<char>> {
        match self {
            Json::Str(s) => Some(s@),
            _ => None,
        }
    }

    /// The member named `key` of an object (`Value::get` with a key).
    pub fn get(&self, key: &str) -> (r: Option<&Json>)
        ensures
            deref_opt(r) == self.member(key@),
    {
        match self {
            Json::Object(fields) => {
                let mut i: usize = 0;
                assert(fields@.skip(0) =~= fields@);
                while i < fields.len()
                    invariant
                        i <= fields@.len(),
                        self.member(key@) == field_lookup(fields@, key@),
                        field_lookup(fields@, key@) == field_lookup(fields@.skip(i as int), key@),
                    decreases fields.len() - i,
                {
                    assert(fields@.skip(i as int).drop_first() =~= fields@.skip(i + 1));
                    assert(fields@.skip(i as int)[0] == fields@[i as int]);
                    if str_eq(fields[i].0.as_str(), key) {
                        assert(field_lookup(fields@.skip(i as int), key@) == Some(fields@[i as int].1));
                        return Some(&fields[i].1);
                    }
                    i += 1;
                }
                assert(fields@.skip(i as int).len() == 0);
                None
            },
            _ => None,
        }
    }

    /// The element at position `i` of an array (`Value::get` with an index).
    pub fn get_index(&self, i: usize) -> (r: Option<&Json>)
        ensures
            deref_opt(r) == self.element(i as int),
    {
        match self {
            Json::Array(items) => if i < items.len() {
                Some(&items[i])
            } else {
                None
            },
            _ => None,
        }
    }

    /// The text of a string value (`Value::as_str`).
    pub fn as_str(&self) -> (r: Option<&str>)
        ensures
            match r {
                Some(s) => self.text() == Some(s@),
                None => self.text() is None,
            },
    {
        match self {
            Json::Str(s) => Some(s.as_str()),
            _ => None,
        }
    }

    /// The text of the string member `key`, or the empty text when there is
    /// no such member or it is not a string.
    pub open spec fn member_text(self, key: Seq<char>) -> Seq<char> {
        match self.member(key) {
            Some(m) => match m.text() {
                Some(t) => t,
                None => Seq::empty(),
            },
            None => Seq::empty(),
        }
    }

    /// The text of the string member `key`, or `""` (`get(key)`, then
    /// `as_str`, then `unwrap_or("")`).
    pub fn member_str_or_empty(&self, key: &str) -> (r: &str)
        ensures
            r@ == self.member_text(key@),
    {
        proof {
            reveal_strlit("");
        }
        match self.get(key) {
            Some(m) => match m.as_str() {
                Some(t) => t,
                None => "",
            },
            None => "",
        }
    }

    /// Whether the value is an array (`Value::as_array` is `Some`).
    pub open spec fn is_array(self) -> bool {
        self is Array
    }
}

} // verus!
