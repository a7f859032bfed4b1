//! JSON on the wire, as far as notices and heartbeats need it.

use vstd::prelude::*;

verus! {

/// The content type that every [`JsonPost`] is sent with.
pub const CONTENT_TYPE: &'static str = "application/json";

/// One HTTP POST of a JSON body, as plain values: where it goes and what it
/// carries. Sending it is the caller's part.
#[derive(Debug, PartialEq, Eq)]
pub struct JsonPost {
    pub uri: String,
    pub body: String,
}

/// The JSON string literal for `text`: what `serde_json` writes for a string,
/// quotes and escapes included.
pub uninterp spec fn json_string(text: Seq<char>) -> Seq<char>;

/// Writes `text` as a JSON string literal: `serde_json::to_string` on a
/// string slice. For a string slice the call always succeeds, since it only
/// appends to a byte vector, and what it writes depends on `text` alone. The
/// contract claims that and gives the literal a name; of what the literal
/// holds it claims nothing.
#[verifier::external_body]
pub(crate) fn encode_string(text: &str) -> (encoded: Option<String>)
    ensures
        encoded is Some,
        encoded matches Some(json) ==> json@ == json_string(text@),
{
    serde_json::to_string(text).ok()
}

} // verus!
