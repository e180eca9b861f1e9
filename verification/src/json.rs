//! JSON documents: the tree that a body decodes to, and what is read from it.

use crate::error::{Error, JsonError};
use crate::response::{body_under, read_ceiling, BodyReader, InputStream, Response};
use vstd::prelude::*;

verus! {

/// A JSON value.
#[derive(Debug, PartialEq, Eq)]
pub enum Json {
    Null,
    Bool(bool),
    /// A number: its value where it is a whole number from 0 to 2^64 - 1,
    /// nothing for any other.
    Number(Option<u64>),
    String(String),
    Array(Vec<Json>),
    /// An object: its members in order. Where a name stands twice, the
    /// first is the one that is found.
    Object(Vec<(String, Json)>),
}

/// The first member of `members` with the given name.
pub open spec fn find(members: Seq<(String, Json)>, name: Seq<char>) -> Option<Json>
    decreases members.len(),
{
    if members.len() == 0 {
        None
    } else if members[0].0@ == name {
        Some(members[0].1)
    } else {
        find(members.skip(1), name)
    }
}

/// The member of an object with the given name. Any other value has none.
pub open spec fn member_of(value: Json, name: Seq<char>) -> Option<Json> {
    match value {
        Json::Object(members) => find(members@, name),
        _ => None,
    }
}

/// The text of a string. Any other value has none.
pub open spec fn text_of(value: Json) -> Option<Seq<char>> {
    match value {
        Json::String(text) => Some(text@),
        _ => None,
    }
}

/// The value of a whole number that is not negative. Any other value has
/// none.
pub open spec fn number_of(value: Json) -> Option<u64> {
    match value {
        Json::Number(n) => n,
        _ => None,
    }
}

/// The items of an array. Any other value has none.
pub open spec fn items_of(value: Json) -> Option<Seq<Json>> {
    match value {
        Json::Array(items) => Some(items@),
        _ => None,
    }
}

/// The document that the JSON decoder reads from `bytes`, or nothing where
/// they are no JSON text.
pub uninterp spec fn json_document(bytes: Seq<u8>) -> Option<Json>;

/// A value as the JSON decoder builds it.
#[verifier::external_type_specification]
#[verifier::external_body]
pub struct ExValue(serde_json::Value);

/// One `serde_json::Value` as a value of this library: each variant becomes
/// the variant of the same name, a number is taken by `Number::as_u64`, and
/// the items of arrays and the members of objects are converted in the
/// order in which the value hands them out.
#[verifier::external_body]
fn lift(value: serde_json::Value) -> Json {
    match value {
        serde_json::Value::Null => Json::Null,
        serde_json::Value::Bool(b) => Json::Bool(b),
        serde_json::Value::Number(n) => Json::Number(n.as_u64()),
        serde_json::Value::String(s) => Json::String(s),
        serde_json::Value::Array(items) => Json::Array(items.into_iter().map(lift).collect()),
        serde_json::Value::Object(members) => Json::Object(
            members.into_iter().map(|(name, member)| (name, lift(member))).collect(),
        ),
    }
}

/// `serde_json::from_slice`, reading a `serde_json::Value`. The contract
/// claims that whether a document is read, and which, is a function of the
/// bytes. Of the error it claims nothing.
#[verifier::external_body]
fn read_document(bytes: &[u8]) -> (r: Result<Json, JsonError>)
    ensures
        r is Ok <==> json_document(bytes@) is Some,
        r is Ok ==> r->Ok_0 == json_document(bytes@)->Some_0,
{
    match serde_json::from_slice::<serde_json::Value>(bytes) {
        Ok(value) => Ok(lift(value)),
        Err(e) => Err(JsonError { message: e.to_string() }),
    }
}

impl Json {
    /// Reads a JSON document.
    pub fn parse(bytes: &[u8]) -> (r: Result<Json, Error>)
        ensures
            match json_document(bytes@) {
                Some(document) => r == Ok::<Json, Error>(document),
                None => r matches Err(Error::SerdeJson(_)),
            },
    {
        match read_document(bytes) {
            Ok(document) => Ok(document),
            Err(e) => Err(Error::SerdeJson(e)),
        }
    }

    /// The member of an object with the given name.
    pub fn get(&self, name: &str) -> (r: Option<&Json>)
        ensures
            r is Some <==> member_of(*self, name@) is Some,
            r is Some ==> *r->Some_0 == member_of(*self, name@)->Some_0,
    {
        match self {
            Json::Object(members) => {
                let wanted = name.to_owned();
                let mut i: usize = 0;
                assert(members@.skip(0) =~= members@);
                while i < members.len()
                    invariant
                        i <= members.len(),
                        wanted@ == name@,
                        member_of(*self, name@) == find(members@, name@),
                        find(members@, name@) == find(members@.skip(i as int), name@),
                    decreases members.len() - i,
                {
                    let ghost rest = members@.skip(i as int);
                    assert(rest[0] == members@[i as int]);
                    assert(rest.skip(1) =~= members@.skip(i + 1));
                    if members[i].0 == wanted {
                        return Some(&members[i].1);
                    }
                    i = i + 1;
                }
                None
            },
            _ => None,
        }
    }

    /// The text of a string.
    pub fn as_str(&self) -> (r: Option<&str>)
        ensures
            r is Some <==> text_of(*self) is Some,
            r is Some ==> r->Some_0@ == text_of(*self)->Some_0,
    {
        match self {
            Json::String(text) => Some(text.as_str()),
            _ => None,
        }
    }

    /// The value of a whole number that is not negative.
    pub fn as_u64(&self) -> (r: Option<u64>)
        ensures
            r == number_of(*self),
    {
        match self {
            Json::Number(n) => *n,
            _ => None,
        }
    }

    /// The items of an array.
    pub fn as_array(&self) -> (r: Option<&Vec<Json>>)
        ensures
            r is Some <==> items_of(*self) is Some,
            r is Some ==> r->Some_0@ == items_of(*self)->Some_0,
    {
        match self {
            Json::Array(items) => Some(items),
            _ => None,
        }
    }

    /// Whether this is `null`.
    pub fn is_null(&self) -> (r: bool)
        ensures
            r == (*self is Null),
    {
        match self {
            Json::Null => true,
            _ => false,
        }
    }
}

impl BodyReader {
    /// The bytes read, decoded as JSON. Bytes that are no JSON text are an
    /// error.
    pub fn into_json(self) -> (r: Result<Json, Error>)
        ensures
            match json_document(self@.full) {
                Some(document) => r == Ok::<Json, Error>(document),
                None => r matches Err(Error::SerdeJson(_)),
            },
    {
        let full = self.into_bytes();
        Json::parse(full.as_slice())
    }
}

impl Response<InputStream> {
    /// Reads the whole body and decodes it as JSON. A body that is no JSON
    /// text is an error.
    pub fn json(self) -> (r: Result<Json, Error>)
        ensures
            match json_document(body_under(read_ceiling(self@.headers), self@.body@)) {
                Some(document) => r == Ok::<Json, Error>(document),
                None => r matches Err(Error::SerdeJson(_)),
            },
    {
        let full = self.bytes();
        Json::parse(full.as_slice())
    }
}

} // verus!
