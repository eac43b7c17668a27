//! A JSON document as the decoders read it, and typed access to its fields.

use vstd::prelude::*;
use crate::error::{DecodeError, DateFormat, Fault, outcome, opt_view};
use crate::time::{Timestamp, parse_rfc3339, rfc3339_instant};

verus! {

/// A JSON value.
pub enum Json {
    Null,
    Bool(bool),
    /// A number, with its value where that is an integer in `0..=u64::MAX`.
    Number(Option<u64>),
    Str(String),
    Array(Vec<Json>),
    /// The members of an object, in order.
    Object(Vec<(String, Json)>),
}

#[verifier::external_type_specification]
#[verifier::external_body]
pub struct ExValue(serde_json::Value);

/// What serde_json makes of the text `s`: the document, or the text of its
/// syntax error.
pub uninterp spec fn json_of_text(s: Seq<char>) -> Result<Json, Seq<char>>;

/// Relies on `serde_json::from_str` to read a document into a
/// `serde_json::Value`, which `json_from_value` then carries over.
#[verifier::external_body]
fn parse_json_text(s: &str) -> (r: Result<Json, String>)
    ensures
        match r {
            Ok(j) => json_of_text(s@) == Ok::<Json, Seq<char>>(j),
            Err(e) => json_of_text(s@) == Err::<Json, Seq<char>>(e@),
        },
{
    match serde_json::from_str::<serde_json::Value>(s) {
        Ok(v) => Ok(json_from_value(&v)),
        Err(e) => Err(e.to_string()),
    }
}

/// Carries a `serde_json::Value` over, variant by variant; numbers through
/// `serde_json::Number::as_u64`.
#[verifier::external_body]
fn json_from_value(v: &serde_json::Value) -> Json {
    match v {
        serde_json::Value::Null => Json::Null,
        serde_json::Value::Bool(b) => Json::Bool(*b),
        serde_json::Value::Number(n) => Json::Number(n.as_u64()),
        serde_json::Value::String(s) => Json::Str(s.clone()),
        serde_json::Value::Array(a) => Json::Array(a.iter().map(json_from_value).collect()),
        serde_json::Value::Object(m) => Json::Object(
            m.iter().map(|(k, x)| (k.clone(), json_from_value(x))).collect(),
        ),
    }
}

/// The value of the first member of `members` named `key`.
pub open spec fn member_value(members: Seq<(String, Json)>, key: Seq<char>) -> Option<Json>
    decreases members.len(),
{
    if members.len() == 0 {
        None
    } else if members[0].0@ == key {
        Some(members[0].1)
    } else {
        member_value(members.drop_first(), key)
    }
}

/// The member `key` of `v`; `Null` where `v` is no object or has no such member.
pub open spec fn field(v: Json, key: Seq<char>) -> Json {
    match v {
        Json::Object(members) => match member_value(members@, key) {
            Some(x) => x,
            None => Json::Null,
        },
        _ => Json::Null,
    }
}

/// The member `key` of `v` where it is a string.
pub open spec fn string_field(v: Json, key: Seq<char>) -> Option<Seq<char>> {
    match field(v, key) {
        Json::Str(s) => Some(s@),
        _ => None,
    }
}

/// The member `key` of `v` where it is an unsigned integer.
pub open spec fn unsigned_field(v: Json, key: Seq<char>) -> Option<u64> {
    match field(v, key) {
        Json::Number(Some(n)) => Some(n),
        _ => None,
    }
}

/// The elements of the member `key` of `v` where it is an array.
pub open spec fn array_field(v: Json, key: Seq<char>) -> Option<Seq<Json>> {
    match field(v, key) {
        Json::Array(a) => Some(a@),
        _ => None,
    }
}

/// What the field extractor gives for the string in member `key` of `v`: it
/// must be a non-empty string.
pub open spec fn string_at(v: Json, key: Seq<char>) -> Result<Seq<char>, Fault> {
    match string_field(v, key) {
        Some(s) => if s.len() > 0 { Ok(s) } else { Err(Fault::NotString { field: key }) },
        None => Err(Fault::NotString { field: key }),
    }
}

/// What the field extractor gives for the unsigned integer in member `key` of `v`.
pub open spec fn unsigned_at(v: Json, key: Seq<char>) -> Result<u64, Fault> {
    match unsigned_field(v, key) {
        Some(n) => Ok(n),
        None => Err(Fault::NotUnsigned { field: key }),
    }
}

/// What the field extractor gives for the date in member `key` of `v`.
pub open spec fn date_at(v: Json, key: Seq<char>) -> Result<Timestamp, Fault> {
    match string_field(v, key) {
        None => Err(Fault::NotString { field: key }),
        Some(raw) => match rfc3339_instant(raw) {
            Ok(p) => Ok(Timestamp { secs: p.0, nanos: p.1 }),
            Err(reason) => Err(Fault::BadDate { raw, format: DateFormat::Rfc3339, reason }),
        },
    }
}

/// Decodes each of `items` with `f`, in order: the results, or the fault of
/// the first item that fails.
pub open spec fn decode_each<T>(items: Seq<Json>, f: spec_fn(Json) -> Result<T, Fault>) -> Result<Seq<T>, Fault>
    decreases items.len(),
{
    if items.len() == 0 {
        Ok(Seq::empty())
    } else {
        match decode_each(items.drop_last(), f) {
            Err(e) => Err(e),
            Ok(done) => match f(items.last()) {
                Ok(x) => Ok(done.push(x)),
                Err(e) => Err(e),
            },
        }
    }
}

/// Once the items up to `n` fail to decode, all of them fail with the same
/// fault.
pub proof fn lemma_decode_each_stops<T>(items: Seq<Json>, n: int, f: spec_fn(Json) -> Result<T, Fault>)
    requires
        0 <= n <= items.len(),
        decode_each(items.subrange(0, n), f) is Err,
    ensures
        decode_each(items, f) == decode_each(items.subrange(0, n), f),
    decreases items.len() - n,
{
    if n == items.len() {
        assert(items.subrange(0, n) =~= items);
    } else {
        assert(items.subrange(0, n + 1).drop_last() =~= items.subrange(0, n));
        lemma_decode_each_stops(items, n + 1, f);
    }
}

/// The views of `xs`, in order.
pub open spec fn views<T: View>(xs: Seq<T>) -> Seq<T::V> {
    xs.map_values(|x: T| x@)
}

/// The cursor that a page of raw `items` hands on: the string in member `key`
/// of its last item, `None` where the page is empty.
pub open spec fn page_cursor(items: Seq<Json>, key: Seq<char>) -> Result<Option<Seq<char>>, Fault> {
    if items.len() == 0 {
        Ok(None)
    } else {
        match string_at(items.last(), key) {
            Ok(c) => Ok(Some(c)),
            Err(e) => Err(e),
        }
    }
}

/// The mathematical value of a decoded page: its records and its cursor.
pub open spec fn page_outcome<T: View>(r: Result<(Vec<T>, Option<String>), DecodeError>) -> Result<(Seq<T::V>, Option<Seq<char>>), Fault> {
    match r {
        Ok((xs, cursor)) => Ok((views(xs@), opt_view(cursor))),
        Err(e) => Err(e@),
    }
}

/// The mathematical value of a decoded list of records.
pub open spec fn list_outcome<T: View>(r: Result<Vec<T>, DecodeError>) -> Result<Seq<T::V>, Fault> {
    match r {
        Ok(xs) => Ok(views(xs@)),
        Err(e) => Err(e@),
    }
}

/// The cursor for the page after the one of raw `items`: the string in
/// member `key` of the last item; `None` where the page is empty.
pub fn last_item_cursor(items: &Vec<Json>, key: &str) -> (r: Result<Option<String>, DecodeError>)
    ensures
        match r {
            Ok(c) => page_cursor(items@, key@) == Ok::<Option<Seq<char>>, Fault>(opt_view(c)),
            Err(e) => page_cursor(items@, key@) == Err::<Option<Seq<char>>, Fault>(e@),
        },
{
    if items.len() == 0 {
        return Ok(None);
    }
    let c = parse_string(&items[items.len() - 1], key)?;
    Ok(Some(c))
}

/// The non-empty string in member `property_name` of `v`.
pub fn parse_string(v: &Json, property_name: &str) -> (r: Result<String, DecodeError>)
    ensures
        outcome(r) == string_at(*v, property_name@),
{
    match v.get(property_name) {
        Some(Json::Str(s)) if !s.as_str().is_empty() => Ok(s.clone()),
        _ => Err(DecodeError::NotString { field: String::from_str(property_name) }),
    }
}

/// The unsigned integer in member `property_name` of `v`.
pub fn parse_int(v: &Json, property_name: &str) -> (r: Result<u64, DecodeError>)
    ensures
        outcome(r) == unsigned_at(*v, property_name@),
{
    match v.get(property_name) {
        Some(Json::Number(Some(n))) => Ok(*n),
        _ => Err(DecodeError::NotUnsigned { field: String::from_str(property_name) }),
    }
}

/// The RFC 3339 date in member `property_name` of `v`, as an instant in UTC.
pub fn parse_date(v: &Json, property_name: &str) -> (r: Result<Timestamp, DecodeError>)
    ensures
        outcome(r) == date_at(*v, property_name@),
{
    match v.get(property_name) {
        Some(Json::Str(raw)) => match parse_rfc3339(raw.as_str()) {
            Ok(t) => Ok(t),
            Err(reason) => Err(DecodeError::BadDate {
                raw: raw.clone(),
                format: DateFormat::Rfc3339,
                reason,
            }),
        },
        _ => Err(DecodeError::NotString { field: String::from_str(property_name) }),
    }
}

impl Json {
    /// Reads a JSON document.
    pub fn parse(text: &str) -> (r: Result<Json, DecodeError>)
        ensures
            match json_of_text(text@) {
                Ok(j) => r == Ok::<Json, DecodeError>(j),
                Err(reason) => r matches Err(e) && e@ == (Fault::Syntax { reason }),
            },
    {
        match parse_json_text(text) {
            Ok(j) => Ok(j),
            Err(reason) => Err(DecodeError::Syntax { reason }),
        }
    }

    /// The member `key` of this value, where it is an object that has one.
    pub fn get(&self, key: &str) -> (r: Option<&Json>)
        ensures
            match r {
                Some(x) => field(*self, key@) == *x && (self matches Json::Object(members)
                    && member_value(members@, key@) == Some(*x)),
                None => field(*self, key@) == Json::Null && (self matches Json::Object(members)
                    ==> member_value(members@, key@) is None),
            },
    {
        match self {
            Json::Object(members) => {
                let k = String::from_str(key);
                let mut i: usize = 0;
                proof {
                    assert(members@.subrange(0, members@.len() as int) =~= members@);
                }
                while i < members.len()
                    invariant
                        i <= members@.len(),
                        k@ == key@,
                        *self == Json::Object(*members),
                        member_value(members@, key@) == member_value(
                            members@.subrange(i as int, members@.len() as int),
                            key@,
                        ),
                    decreases members.len() - i,
                {
                    proof {
                        assert(members@.subrange(i as int, members@.len() as int).drop_first()
                            =~= members@.subrange(i + 1, members@.len() as int));
                    }
                    if members[i].0 == k {
                        proof {
                            let sub = members@.subrange(i as int, members@.len() as int);
                            assert(sub[0] == members@[i as int]);

                        }
                        return Some(&members[i].1);
                    }
                    i = i + 1;
                }
                None
            },
            _ => None,
        }
    }
}

} // verus!
