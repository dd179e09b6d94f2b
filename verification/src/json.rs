//! Reading the catalog's JSON with gjson. The functions here are
//! believed, not proved: what a path selects takes pages to say, so each
//! result has a name, and the contracts say only that the call gives the
//! named value. A value is read only out of a text that gjson takes for
//! well-formed: on other texts the reading may panic.

use vstd::prelude::*;

verus! {

/// Whether gjson takes the text for well-formed JSON.
pub uninterp spec fn gjson_valid(json: Seq<char>) -> bool;

/// What a path selects in a JSON text, read as text.
pub uninterp spec fn gjson_text(json: Seq<char>, path: Seq<char>) -> Seq<char>;

/// The members of what a path selects in a JSON text, each as raw JSON.
pub uninterp spec fn gjson_items(json: Seq<char>, path: Seq<char>) -> Seq<Seq<char>>;

/// `gjson::valid`.
#[verifier::external_body]
pub(crate) fn json_valid(json: &str) -> (r: bool)
    ensures
        r == gjson_valid(json@),
{
    gjson::valid(json)
}

/// `gjson::get`, with the selected value read as text. On a text that is not
/// well-formed the outside function may panic, which `requires` leaves out.
#[verifier::external_body]
pub(crate) fn json_text(json: &str, path: &str) -> (r: String)
    requires
        gjson_valid(json@),
    ensures
        r@ == gjson_text(json@, path@),
{
    gjson::get(json, path).to_string()
}

/// `gjson::get` followed by `Value::each`: the raw JSON of each member of the
/// selected value, in order. A path that compares values reads them as text,
/// so this too is asked only of a well-formed text.
#[verifier::external_body]
pub(crate) fn json_items(json: &str, path: &str) -> (r: Vec<String>)
    requires
        gjson_valid(json@),
    ensures
        r@.len() == gjson_items(json@, path@).len(),
        forall|i: int| 0 <= i < r@.len() ==> (#[trigger] r@[i])@ == gjson_items(json@, path@)[i],
{
    let mut items = Vec::new();
    gjson::get(json, path).each(|_, member| {
        items.push(member.json().to_string());
        true
    });
    items
}

/// The members of the array that a path selects in a JSON text, each as raw
/// JSON; none where the path selects no array.
pub uninterp spec fn gjson_array(json: Seq<char>, path: Seq<char>) -> Seq<Seq<char>>;

/// What a path selects in a JSON text, read as a 32-bit number.
pub uninterp spec fn gjson_i32(json: Seq<char>, path: Seq<char>) -> i32;

/// `gjson::get` followed by `Value::array`: the raw JSON of each member of
/// the selected array, in order; asked only of a well-formed text.
#[verifier::external_body]
pub(crate) fn json_array(json: &str, path: &str) -> (r: Vec<String>)
    requires
        gjson_valid(json@),
    ensures
        r@.len() == gjson_array(json@, path@).len(),
        forall|i: int| 0 <= i < r@.len() ==> (#[trigger] r@[i])@ == gjson_array(json@, path@)[i],
{
    gjson::get(json, path).array().iter().map(|member| member.json().to_string()).collect()
}

/// `gjson::get` followed by `Value::i32`. On a text that is not well-formed
/// the outside function may panic, which `requires` leaves out.
#[verifier::external_body]
pub(crate) fn json_i32(json: &str, path: &str) -> (r: i32)
    requires
        gjson_valid(json@),
    ensures
        r == gjson_i32(json@, path@),
{
    gjson::get(json, path).i32()
}

} // verus!
