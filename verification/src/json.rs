//! The JSON boundary of the protocol: interaction payloads carry JSON
//! documents as text, and the library asks `serde_json` whether a text is
//! one.

use vstd::prelude::*;

verus! {

/// Whether a text is a well-formed JSON document. What `serde_json`
/// accepts depends on the text alone, so the predicate carries a name and
/// no definition.
pub uninterp spec fn json_accepts(text: Seq<char>) -> bool;

/// Relies on `serde_json::from_str::<Value>`: whether a text parses as
/// JSON is a function of the text alone.
#[verifier::external_body]
pub fn json_parses(s: &str) -> (r: bool)
    ensures
        r == json_accepts(s@),
{
    serde_json::from_str::<serde_json::Value>(s).is_ok()
}

} // verus!
