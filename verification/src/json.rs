//! JSON values of the `serde_json` crate, and what they hold as a mathematical value.

use crate::text::decimal;
use vstd::prelude::*;

verus! {

/// `serde_json::Value`, a JSON value.
#[verifier::external_type_specification]
#[verifier::external_body]
pub struct ExValue(serde_json::Value);

/// `serde_json::Map`, the contents of a JSON object.
#[verifier::external_type_specification]
#[verifier::external_body]
#[verifier::reject_recursive_types(K)]
#[verifier::reject_recursive_types(V)]
pub struct ExJsonMap<K, V>(serde_json::Map<K, V>);

/// A JSON value as a mathematical value.
pub enum JsonView {
    Null,
    Bool(bool),
    /// A number, by its text.
    Number(Seq<char>),
    Str(Seq<char>),
    Arr(Seq<JsonView>),
    Obj(Map<Seq<char>, JsonView>),
}

/// What a JSON value holds.
pub uninterp spec fn json_view(v: serde_json::Value) -> JsonView;

/// What the contents of a JSON object hold.
pub uninterp spec fn fields(m: serde_json::Map<String, serde_json::Value>) -> Map<
    Seq<char>,
    JsonView,
>;

/// What the values of a list hold.
pub open spec fn json_views(v: Seq<serde_json::Value>) -> Seq<JsonView> {
    v.map_values(|x: serde_json::Value| json_view(x))
}

/// `serde_json::Value::Null`.
#[verifier::external_body]
pub(crate) fn json_null() -> (v: serde_json::Value)
    ensures
        json_view(v) == JsonView::Null,
{
    serde_json::Value::Null
}

/// `serde_json::Value::Bool`.
#[verifier::external_body]
pub(crate) fn json_bool(b: bool) -> (v: serde_json::Value)
    ensures
        json_view(v) == JsonView::Bool(b),
{
    serde_json::Value::Bool(b)
}

/// `serde_json::Value::from` on a whole number, which is written in decimal digits.
#[verifier::external_body]
pub(crate) fn json_number(n: u32) -> (v: serde_json::Value)
    ensures
        json_view(v) == JsonView::Number(decimal(n as nat)),
{
    serde_json::Value::from(n)
}

/// `serde_json::Value::from` on a string.
#[verifier::external_body]
pub(crate) fn json_str(s: &str) -> (v: serde_json::Value)
    ensures
        json_view(v) == JsonView::Str(s@),
{
    serde_json::Value::from(s)
}

/// `serde_json::Value::Array`.
#[verifier::external_body]
pub(crate) fn json_array(items: Vec<serde_json::Value>) -> (v: serde_json::Value)
    ensures
        json_view(v) == JsonView::Arr(json_views(items@)),
{
    serde_json::Value::Array(items)
}

/// `serde_json::Value::Object`.
#[verifier::external_body]
pub(crate) fn json_object(m: serde_json::Map<String, serde_json::Value>) -> (v: serde_json::Value)
    ensures
        json_view(v) == JsonView::Obj(fields(m)),
{
    serde_json::Value::Object(m)
}

/// `serde_json::Map::new` is an object without fields.
#[verifier::external_body]
pub(crate) fn no_fields() -> (m: serde_json::Map<String, serde_json::Value>)
    ensures
        (fields(m) == Map::<Seq<char>, JsonView>::empty()),
{
    serde_json::Map::new()
}

/// `serde_json::Map::insert` sets a field, whatever it was.
#[verifier::external_body]
pub(crate) fn set_field(
    m: &mut serde_json::Map<String, serde_json::Value>,
    name: &str,
    v: serde_json::Value,
)
    ensures
        fields(*final(m)) == fields(*old(m)).insert(name@, json_view(v)),
{
    m.insert(name.to_string(), v);
}

/// `serde_json::Value::clone` holds the same.
#[verifier::external_body]
pub(crate) fn json_clone(v: &serde_json::Value) -> (r: serde_json::Value)
    ensures
        json_view(r) == json_view(*v),
{
    v.clone()
}

/// `serde_json::Value::is_null`.
#[verifier::external_body]
pub(crate) fn json_is_null(v: &serde_json::Value) -> (r: bool)
    ensures
        r == (json_view(*v) is Null),
{
    v.is_null()
}

/// `serde_json::Value::get` with a name is the field of that name, if the value is an object that
/// has one.
#[verifier::external_body]
pub(crate) fn json_field<'a>(v: &'a serde_json::Value, name: &str) -> (r: Option<
    &'a serde_json::Value,
>)
    ensures
        match r {
            Some(f) => json_view(*v) is Obj && json_view(*v)->Obj_0.dom().contains(name@)
                && json_view(*f) == json_view(*v)->Obj_0[name@],
            None => json_view(*v) is Obj ==> !json_view(*v)->Obj_0.dom().contains(name@),
        },
{
    v.get(name)
}

/// `serde_json::Value::as_array` is the items, if the value is an array.
#[verifier::external_body]
pub(crate) fn json_items(v: &serde_json::Value) -> (r: Option<&Vec<serde_json::Value>>)
    ensures
        match r {
            Some(items) => json_view(*v) == JsonView::Arr(json_views(items@)),
            None => !(json_view(*v) is Arr),
        },
{
    v.as_array()
}

/// `serde_json::Value::as_str` is the text, if the value is a string.
#[verifier::external_body]
pub(crate) fn json_text(v: &serde_json::Value) -> (r: Option<&str>)
    ensures
        match r {
            Some(s) => json_view(*v) == JsonView::Str(s@),
            None => !(json_view(*v) is Str),
        },
{
    v.as_str()
}

/// `serde_json::Value::as_u64` is the number, if the value is a whole number from zero on.
#[verifier::external_body]
pub(crate) fn json_u64(v: &serde_json::Value) -> (r: Option<u64>)
    ensures
        match r {
            Some(n) => json_view(*v) == JsonView::Number(decimal(n as nat)),
            None => forall|n: u64| json_view(*v) != JsonView::Number(#[trigger] decimal(n as nat)),
        },
{
    v.as_u64()
}

} // verus!
