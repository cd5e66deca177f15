//! JSON lists of strings, as stored settings hold them, read and written
//! by `serde_json`.

use vstd::prelude::*;
use crate::plane_state::strings_view;

verus! {

/// What `serde_json::from_str::<Vec<String>>` gives for a text: the list,
/// or the text of its error.
pub uninterp spec fn json_string_list(raw: Seq<char>) -> Result<Seq<Seq<char>>, Seq<char>>;

/// What `serde_json::to_string` writes for a list of strings.
pub uninterp spec fn json_text_of_strings(items: Seq<Seq<char>>) -> Seq<char>;

/// A list of strings, or an error text, by views.
pub open spec fn strings_result_view(r: Result<Vec<String>, String>) -> Result<Seq<Seq<char>>, Seq<char>> {
    match r {
        Ok(v) => Ok(strings_view(v@)),
        Err(e) => Err(e@),
    }
}

/// Calls `serde_json::from_str::<Vec<String>>`; an error becomes its
/// `Display` text. The outcome is named by `json_string_list`.
#[verifier::external_body]
pub(crate) fn parse_string_list(raw: &str) -> (r: Result<Vec<String>, String>)
    ensures
        strings_result_view(r) == json_string_list(raw@),
{
    serde_json::from_str::<Vec<String>>(raw).map_err(|e| e.to_string())
}

/// Calls `serde_json::to_string` on a list of strings, which cannot fail
/// for strings; the text is named by `json_text_of_strings`.
#[verifier::external_body]
pub(crate) fn string_list_text(items: &Vec<String>) -> (s: String)
    ensures
        s@ == json_text_of_strings(strings_view(items@)),
{
    serde_json::to_string(items).unwrap_or_default()
}

} // verus!
