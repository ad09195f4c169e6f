//! JSON values as the tool's answers and arguments hold them: what a
//! `serde_json::Value` contains, and the few of its operations that the library
//! calls.

use serde_json::Value;
use vstd::prelude::*;

verus! {

/// `serde_json::Value`, held without looking inside.
#[verifier::external_type_specification]
#[verifier::external_body]
pub struct ExValue(serde_json::Value);

/// `serde_json::Map`, held without looking inside.
#[verifier::external_type_specification]
#[verifier::external_body]
#[verifier::reject_recursive_types(K)]
#[verifier::reject_recursive_types(V)]
pub struct ExObject<K, V>(serde_json::Map<K, V>);

/// The content of a JSON value. A number with a fraction is told by its IEEE
/// bits; the library carries such numbers and never computes with them.
pub enum Json {
    Null,
    Bool(bool),
    Integer(int),
    Float(u64),
    Text(Seq<char>),
    Array(Seq<Json>),
    Object(Map<Seq<char>, Json>),
}

/// What a `serde_json::Value` contains.
pub uninterp spec fn json(v: serde_json::Value) -> Json;

/// What a `serde_json::Map` contains, under each of its keys.
pub uninterp spec fn entries(m: serde_json::Map<String, serde_json::Value>) -> Map<Seq<char>, Json>;

/// What each of a sequence of values contains.
pub open spec fn json_seq(s: Seq<serde_json::Value>) -> Seq<Json> {
    s.map_values(|v: serde_json::Value| json(v))
}

/// The object without any key.
pub open spec fn no_entries() -> Map<Seq<char>, Json> {
    Map::empty()
}

/// The content of `null` where there is no text, and of the text where there is.
pub open spec fn optional_text_json(s: Option<Seq<char>>) -> Json {
    match s {
        Some(t) => Json::Text(t),
        None => Json::Null,
    }
}

/// `serde_json::Map::new` makes an object without keys.
pub assume_specification[ serde_json::Map::<String, Value>::new ]() -> (m: serde_json::Map<
    String,
    Value,
>)
    ensures
        entries(m) == no_entries(),
;

/// `serde_json::Map::insert` sets one key, whatever stood under it before, and
/// hands back what did.
pub assume_specification[ serde_json::Map::<String, Value>::insert ](
    m: &mut serde_json::Map<String, Value>,
    k: String,
    v: Value,
) -> (r: Option<Value>)
    ensures
        entries(*final(m)) == entries(*old(m)).insert(k@, json(v)),
        r is Some <==> entries(*old(m)).contains_key(k@),
        r is Some ==> json(r->0) == entries(*old(m))[k@],
;

/// `serde_json::Value::as_object_mut` gives access to the keys of an object and
/// nothing for any other value; what is written through it is what the value
/// then holds.
pub assume_specification[ Value::as_object_mut ](v: &mut Value) -> (r: Option<
    &mut serde_json::Map<String, Value>,
>)
    ensures
        match r {
            Some(m) => json(*old(v)) == Json::Object(entries(*m)) && json(*final(v))
                == Json::Object(entries(*final(m))),
            None => !(json(*old(v)) is Object) && *final(v) == *old(v),
        },
;

/// `serde_json::Value::as_str` gives the text of a string and nothing for any
/// other value.
pub assume_specification[ Value::as_str ](v: &Value) -> (r: Option<&str>)
    ensures
        match r {
            Some(s) => json(*v) == Json::Text(s@),
            None => !(json(*v) is Text),
        },
;

/// `serde_json::Value::is_null` tells `null` from every other value.
pub assume_specification[ Value::is_null ](v: &Value) -> (r: bool)
    ensures
        r == (json(*v) is Null),
;

/// The clone of a `serde_json::Value` contains what the value does.
pub assume_specification[ <Value as Clone>::clone ](v: &Value) -> (r: Value)
    ensures
        json(r) == json(*v),
;

/// `serde_json::Value::get` with a text finds what an object holds under that
/// key, and nothing where the key is missing or the value is no object.
#[verifier::external_body]
pub(crate) fn member<'a>(v: &'a Value, key: &str) -> (r: Option<&'a Value>)
    ensures
        match r {
            Some(found) => json(*v) is Object && json(*v)->Object_0.contains_key(key@) && json(
                *found,
            ) == json(*v)->Object_0[key@],
            None => !(json(*v) is Object && json(*v)->Object_0.contains_key(key@)),
        },
{
    v.get(key)
}

/// `serde_json::Value::from` a text is that string.
#[verifier::external_body]
pub(crate) fn text_value(s: &str) -> (v: Value)
    ensures
        json(v) == Json::Text(s@),
{
    Value::from(s)
}

/// `serde_json::Value::from` a truth value is that truth value.
#[verifier::external_body]
pub(crate) fn bool_value(b: bool) -> (v: Value)
    ensures
        json(v) == Json::Bool(b),
{
    Value::from(b)
}

/// `serde_json::Value::from` a `usize` is that number.
#[verifier::external_body]
pub(crate) fn count_value(n: usize) -> (v: Value)
    ensures
        json(v) == Json::Integer(n as int),
{
    Value::from(n)
}

/// `serde_json::Value::from` an `i64` is that number.
#[verifier::external_body]
pub(crate) fn integer_value(n: i64) -> (v: Value)
    ensures
        json(v) == Json::Integer(n as int),
{
    Value::from(n)
}

/// `serde_json::Value::from` the unit is `null`.
#[verifier::external_body]
pub(crate) fn null_value() -> (v: Value)
    ensures
        json(v) == Json::Null,
{
    Value::from(())
}

/// `serde_json::Value::from` a vector of values is the array of them.
#[verifier::external_body]
pub(crate) fn array_value(items: Vec<Value>) -> (v: Value)
    ensures
        json(v) == Json::Array(json_seq(items@)),
{
    Value::from(items)
}

/// `serde_json::Value::from` a map is the object with its keys.
#[verifier::external_body]
pub(crate) fn object_value(m: serde_json::Map<String, Value>) -> (v: Value)
    ensures
        json(v) == Json::Object(entries(m)),
{
    Value::from(m)
}

/// The string, or `null` where there is none.
pub fn optional_text_value(s: &Option<String>) -> (v: Value)
    ensures
        json(v) == optional_text_json(
            match *s {
                Some(t) => Some(t@),
                None => None,
            },
        ),
{
    match s {
        Some(t) => text_value(t.as_str()),
        None => null_value(),
    }
}

/// Sets the key `key` of `m` to `value`.
pub fn put(m: &mut serde_json::Map<String, Value>, key: &str, value: Value)
    ensures
        entries(*final(m)) == entries(*old(m)).insert(key@, json(value)),
{
    let _ = m.insert(key.to_owned(), value);
}

/// What a sequence of values contains is what each of them does, at its own
/// position; what no text contains is `null`.
pub proof fn law_contents_keep_their_positions(s: Seq<serde_json::Value>, i: int, t: Seq<char>)
    requires
        0 <= i < s.len(),
    ensures
        json_seq(s).len() == s.len(),
        json_seq(s)[i] == json(s[i]),
        optional_text_json(Some(t)) == Json::Text(t),
        optional_text_json(None) is Null,
{
}

} // verus!
