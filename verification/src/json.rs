//! A JSON document as plain values, and reading fields out of it.

use vstd::prelude::*;

verus! {

/// A JSON value.  An object holds its members with distinct keys.
#[derive(Debug, PartialEq, Eq)]
pub enum Json {
    Null,
    Bool(bool),
    /// A number, in the text that the parser prints for it.
    Number(String),
    Str(String),
    Array(Vec<Json>),
    Object(Vec<(String, Json)>),
}

/// The mathematical form of a [`Json`] value.
pub enum JsonView {
    Null,
    Bool(bool),
    Number(Seq<char>),
    Str(Seq<char>),
    Array(Seq<JsonView>),
    Object(Seq<(Seq<char>, JsonView)>),
}

/// The view of a JSON value.
pub open spec fn json_view(j: Json) -> JsonView
    decreases j,
{
    match j {
        Json::Null => JsonView::Null,
        Json::Bool(b) => JsonView::Bool(b),
        Json::Number(n) => JsonView::Number(n@),
        Json::Str(s) => JsonView::Str(s@),
        Json::Array(items) => JsonView::Array(
            Seq::new(
                items@.len(),
                |i: int|
                    if 0 <= i < items@.len() {
                        proof {
                            assert(decreases_to!(items => items[i]));
                        }
                        json_view(items@[i])
                    } else {
                        JsonView::Null
                    },
            ),
        ),
        Json::Object(members) => JsonView::Object(
            Seq::new(
                members@.len(),
                |i: int|
                    if 0 <= i < members@.len() {
                        proof {
                            assert(decreases_to!(members => members[i]));
                        }
                        (members@[i].0@, json_view(members@[i].1))
                    } else {
                        (Seq::empty(), JsonView::Null)
                    },
            ),
        ),
    }
}

impl View for Json {
    type V = JsonView;

    open spec fn view(&self) -> JsonView {
        json_view(*self)
    }
}


/// The value of the member named `key`, or `Null` where there is none.
pub open spec fn member(members: Seq<(Seq<char>, JsonView)>, key: Seq<char>) -> JsonView
    decreases members.len(),
{
    if members.len() == 0 {
        JsonView::Null
    } else if members[0].0 == key {
        members[0].1
    } else {
        member(members.drop_first(), key)
    }
}

/// `v[key]`: the member `key` of an object, `Null` for anything else.
pub open spec fn field(v: JsonView, key: Seq<char>) -> JsonView {
    match v {
        JsonView::Object(members) => member(members, key),
        _ => JsonView::Null,
    }
}

/// The member named `key` of `j`, if `j` is an object that has one.
pub fn get_field<'a>(j: &'a Json, key: &str) -> (r: Option<&'a Json>)
    ensures
        match r {
            Some(x) => field(j@, key@) == x@ && j@ is Object,
            None => field(j@, key@) == JsonView::Null && (j@ is Object ==> !exists|i: int|
                0 <= i < j@->Object_0.len() && (#[trigger] j@->Object_0[i]).0 == key@),
        },
{
    match j {
        Json::Object(members) => {
            let n = members.len();
            let ghost ms = j@->Object_0;
            assert(ms.len() == n);
            let mut i: usize = 0;
            assert(ms.skip(0) == ms);
            while i < n
                invariant
                    i <= n == members@.len() == ms.len(),
                    ms == j@->Object_0,
                    j@ == JsonView::Object(ms),
                    *j == Json::Object(*members),
                    member(ms, key@) == member(ms.skip(i as int), key@),
                    forall|k: int| 0 <= k < i ==> (#[trigger] ms[k]).0 != key@,
                decreases n - i,
            {
                assert(ms[i as int] == (members@[i as int].0@, json_view(members@[i as int].1)));
                assert(ms.skip(i as int)[0] == ms[i as int]);
                if members[i].0 == String::from_str(key) {
                    return Some(&members[i].1);
                }
                assert(ms.skip(i as int).drop_first() == ms.skip(i + 1));
                i = i + 1;
            }
            assert(ms.skip(n as int).len() == 0);
            None
        },
        _ => None,
    }
}


#[verifier::external_type_specification]
#[verifier::external_body]
pub struct ExJsonValue(serde_json::Value);

#[verifier::external_type_specification]
#[verifier::external_body]
pub struct ExJsonError(serde_json::Error);

/// The document that `serde_json` reads from the bytes `text`, `None`
/// where it rejects them.
pub uninterp spec fn parsed_json(text: Seq<u8>) -> Option<JsonView>;

/// The same value as plain data.  Trusted: moves each variant's payload
/// over one for one, printing a number with `serde_json::Number`'s
/// `Display`; nothing is claimed of it.
#[verifier::external_body]
fn json_from_value(v: serde_json::Value) -> Json {
    match v {
        serde_json::Value::Null => Json::Null,
        serde_json::Value::Bool(b) => Json::Bool(b),
        serde_json::Value::Number(n) => Json::Number(n.to_string()),
        serde_json::Value::String(s) => Json::Str(s),
        serde_json::Value::Array(a) => Json::Array(a.into_iter().map(json_from_value).collect()),
        serde_json::Value::Object(m) => Json::Object(
            m.into_iter().map(|(k, x)| (k, json_from_value(x))).collect(),
        ),
    }
}

/// Reads a JSON document with `serde_json::from_slice::<serde_json::Value>`.
/// Trusted: the result is what [`parsed_json`] names for `text`, and an
/// error exactly where it names none.
#[verifier::external_body]
pub(crate) fn parse_json(text: &[u8]) -> (r: Result<Json, serde_json::Error>)
    ensures
        match r {
            Ok(j) => parsed_json(text@) == Some(j@),
            Err(_) => parsed_json(text@) is None,
        },
{
    match serde_json::from_slice::<serde_json::Value>(text) {
        Ok(v) => Ok(json_from_value(v)),
        Err(e) => Err(e),
    }
}

} // verus!
