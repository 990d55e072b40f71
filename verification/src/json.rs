//! The JSON value type that attributes carry through the library unread.

use vstd::prelude::*;
use crate::model::schema::pairs_view;

verus! {

/// `serde_json::Value`, carried through the library as an opaque attribute value.
#[verifier::external_type_specification]
#[verifier::external_body]
pub struct ExJsonValue(serde_json::Value);

/// `serde_json::Value::clone`: the derived `Clone` of `Value` copies the value
/// variant by variant, so the copy is the same value.
pub assume_specification[ <serde_json::Value as Clone>::clone ](v: &serde_json::Value) -> (res:
    serde_json::Value)
    ensures
        res == *v,
;

/// What `json_text_object` builds from `(name, text)` pairs.
pub uninterp spec fn text_object_v(entries: Seq<(Seq<char>, Seq<char>)>) -> serde_json::Value;

/// `serde_json::Value::Object` built from `(name, text)` pairs, each text
/// taken as `serde_json::Value::String`. The value is a function of the
/// pairs alone, named `text_object_v`; nothing more is stated of it.
#[verifier::external_body]
pub(crate) fn json_text_object(entries: &Vec<(String, String)>) -> (r: serde_json::Value)
    ensures
        r == text_object_v(pairs_view(entries@)),
{
    serde_json::Value::Object(
        entries.iter().map(|(k, v)| (k.clone(), serde_json::Value::String(v.clone()))).collect(),
    )
}

} // verus!
